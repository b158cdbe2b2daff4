//! Messages between clients and game servers: inputs packed in bits, hello,
//! welcome and departure.
use crate::bytes_io::{
    bytes_as_slice, bytes_contents, bytes_from_vec, bytes_len, bytes_mut_contents, bytes_mut_new,
    freeze, put_slice, put_u16_le, put_u32_le,
};
use crate::shared_replication::broker_message::NodeId;
use crate::shared_replication::msg_game_payload::{GameMessage, GameMessageHeaders};
use bytes::Bytes;
use vstd::bytes::{
    spec_u16_from_le_bytes, spec_u16_to_le_bytes, spec_u32_from_le_bytes, spec_u32_to_le_bytes,
    u16_from_le_bytes, u16_to_le_bytes, u32_from_le_bytes,
};
use vstd::prelude::*;
use vstd::slice::slice_subrange;
use vstd::utf8::{decode_utf8, encode_utf8, valid_utf8};

verus! {

/// Sixteen bytes of raw input.
pub type Input = [u8; 16];

/// Whether bit `pos` of `v` is set.
pub open spec fn bit_of(v: u16, pos: u8) -> bool {
    (v >> pos) & 1u16 == 1u16
}

/// `v` with bit `pos` set to `bit`.
pub open spec fn with_bit(v: u16, bit: bool, pos: u8) -> u16 {
    (v & !(1u16 << pos)) | ((if bit {
        1u16
    } else {
        0u16
    }) << pos)
}

/// A player's input, one bit per action: up, down, left, right from bit 0.
#[derive(Debug, Clone, Copy, Default, PartialEq, Eq, Structural)]
pub struct PlayerInput(pub u16);

impl PlayerInput {
    /// Reads an input from exactly two little-endian bytes.
    pub fn make_from_u8_slice(slice: &[u8]) -> (r: Option<Self>)
        ensures
            r == (if slice@.len() == 2 {
                Some(PlayerInput(spec_u16_from_le_bytes(slice@)))
            } else {
                None
            }),
    {
        if slice.len() != 2 {
            return None;
        }
        Some(PlayerInput(u16_from_le_bytes(slice)))
    }

    /// The input on two little-endian bytes.
    pub fn to_u8_slice(&self) -> (r: [u8; 2])
        ensures
            r@ == spec_u16_to_le_bytes(self.0),
    {
        let v = u16_to_le_bytes(self.0);
        let r = [v[0], v[1]];
        assert(r@ =~= v@);
        r
    }

    /// Whether bit `pos` is set.
    pub fn get_bit(&self, pos: u8) -> (r: bool)
        requires
            pos < 16,
        ensures
            r == bit_of(self.0, pos),
    {
        (self.0 >> pos) & 1 == 1
    }

    pub fn is_up(&self) -> (r: bool)
        ensures
            r == bit_of(self.0, 0),
    {
        self.get_bit(0)
    }

    pub fn is_down(&self) -> (r: bool)
        ensures
            r == bit_of(self.0, 1),
    {
        self.get_bit(1)
    }

    pub fn is_left(&self) -> (r: bool)
        ensures
            r == bit_of(self.0, 2),
    {
        self.get_bit(2)
    }

    pub fn is_right(&self) -> (r: bool)
        ensures
            r == bit_of(self.0, 3),
    {
        self.get_bit(3)
    }

    /// Sets bit `pos` (0 being the lowest) to `bit`.
    pub fn set_bit(&mut self, bit: bool, pos: u8)
        requires
            pos < 16,
        ensures
            final(self).0 == with_bit(old(self).0, bit, pos),
    {
        let b: u16 = if bit {
            1
        } else {
            0
        };
        self.0 = (self.0 & !(1u16 << pos)) | (b << pos);
    }

    pub fn set_up(&mut self, up: bool)
        ensures
            final(self).0 == with_bit(old(self).0, up, 0),
    {
        self.set_bit(up, 0);
    }

    pub fn set_down(&mut self, down: bool)
        ensures
            final(self).0 == with_bit(old(self).0, down, 1),
    {
        self.set_bit(down, 1);
    }

    pub fn set_left(&mut self, left: bool)
        ensures
            final(self).0 == with_bit(old(self).0, left, 2),
    {
        self.set_bit(left, 2);
    }

    pub fn set_right(&mut self, right: bool)
        ensures
            final(self).0 == with_bit(old(self).0, right, 3),
    {
        self.set_bit(right, 3);
    }
}

/// Setting a bit makes it read back as set, and leaves every other bit.
pub proof fn lemma_set_bit_get_bit(v: u16, bit: bool, pos: u8, other: u8)
    requires
        pos < 16,
        other < 16,
    ensures
        bit_of(with_bit(v, bit, pos), pos) == bit,
        other != pos ==> bit_of(with_bit(v, bit, pos), other) == bit_of(v, other),
{
    let b: u16 = if bit {
        1u16
    } else {
        0u16
    };
    assert(((((v & !(1u16 << pos)) | (b << pos)) >> pos) & 1u16 == 1u16) == (b == 1u16))
        by (bit_vector)
        requires
            pos < 16,
            b == 0 || b == 1,
    ;
    assert(other != pos ==> ((((((v & !(1u16 << pos)) | (b << pos)) >> other) & 1u16) == 1u16)
        == (((v >> other) & 1u16) == 1u16))) by (bit_vector)
        requires
            pos < 16,
            other < 16,
            b == 0 || b == 1,
    ;
}

/// The bytes of a string, as UTF-8.
pub open spec fn string_bytes(s: &String) -> Seq<u8> {
    encode_utf8(s@)
}

/// `String::from_utf8`: the text whose UTF-8 encoding is `v`, or nothing when
/// `v` is not valid UTF-8.
#[verifier::external_body]
fn string_from_utf8(v: Vec<u8>) -> (r: Option<String>)
    ensures
        r is Some <==> valid_utf8(v@),
        r matches Some(s) ==> s@ == decode_utf8(v@),
{
    String::from_utf8(v).ok()
}

/// The message that explains a length error.
#[verifier::external_body]
fn length_error(message: &str, expected: usize, found: usize) -> String {
    format!("{} doit être de {} octets, trouvé {}", message, expected, found)
}

/// Reads the text of `bytes`, refusing bytes that are not UTF-8.
pub fn text_from_bytes(bytes: &[u8]) -> (r: Option<String>)
    ensures
        r is Some <==> valid_utf8(bytes@),
        r matches Some(s) ==> s@ == decode_utf8(bytes@),
{
    let mut v: Vec<u8> = Vec::new();
    let n = bytes.len();
    let mut i: usize = 0;
    while i < n
        invariant
            n == bytes@.len(),
            0 <= i <= n,
            v@ == bytes@.take(i as int),
        decreases n - i,
    {
        v.push(bytes[i]);
        i = i + 1;
        assert(v@ =~= bytes@.take(i as int));
    }
    assert(bytes@.take(n as int) =~= bytes@);
    string_from_utf8(v)
}

/// The UTF-8 bytes of `s`.
pub fn text_bytes(s: &String) -> (r: &[u8])
    ensures
        r@ == string_bytes(s),
{
    s.as_str().as_bytes()
}

/// A client's input, stamped with the client's id.
#[derive(Debug, Clone, Copy, PartialEq, Eq, Structural)]
pub struct PlayerInputMsg {
    pub client_id: NodeId,
    pub input_data: PlayerInput,
}

impl GameMessage for PlayerInputMsg {
    open spec fn spec_header() -> GameMessageHeaders {
        GameMessageHeaders::ClientInput
    }

    open spec fn spec_writable(&self) -> bool {
        true
    }

    /// The id on four bytes, then the input on two, little-endian.
    open spec fn spec_encoding(&self) -> Seq<u8> {
        spec_u32_to_le_bytes(self.client_id) + spec_u16_to_le_bytes(self.input_data.0)
    }

    /// Exactly six bytes; nothing is consumed.
    open spec fn spec_readable(data: Seq<u8>) -> bool {
        data.len() == 6
    }

    open spec fn spec_reads(data: Seq<u8>, m: Self, rest: Seq<u8>) -> bool {
        &&& m.client_id == spec_u32_from_le_bytes(data.subrange(0, 4))
        &&& m.input_data.0 == spec_u16_from_le_bytes(data.subrange(4, 6))
        &&& rest == data
    }

    fn header() -> (r: GameMessageHeaders) {
        GameMessageHeaders::ClientInput
    }

    fn serialize(&self) -> (r: Bytes) {
        let mut buf = bytes_mut_new();
        put_u32_le(&mut buf, self.client_id);
        let input = self.input_data.to_u8_slice();
        put_slice(&mut buf, input.as_slice());
        freeze(buf)
    }

    fn deserialize(data: &mut Bytes) -> (r: Result<Self, String>) {
        let bytes = bytes_as_slice(data);
        if bytes.len() != 6 {
            return Err(length_error("PlayerInputMsg", 6, bytes.len()));
        }
        let client_id = u32_from_le_bytes(slice_subrange(bytes, 0, 4));
        let input_data = match PlayerInput::make_from_u8_slice(slice_subrange(bytes, 4, 6)) {
            Some(i) => i,
            None => {
                return Err("PlayerInputMsg : données d'entrée mal formées".to_string());
            },
        };
        Ok(PlayerInputMsg { client_id, input_data })
    }
}

/// A client went away.
#[derive(Debug, Clone, Copy, PartialEq, Eq, Structural)]
pub struct ClientDisconnectedMsg {
    pub client_id: u32,
}

impl GameMessage for ClientDisconnectedMsg {
    open spec fn spec_header() -> GameMessageHeaders {
        GameMessageHeaders::ClientDisconnect
    }

    open spec fn spec_writable(&self) -> bool {
        true
    }

    /// The id on four little-endian bytes.
    open spec fn spec_encoding(&self) -> Seq<u8> {
        spec_u32_to_le_bytes(self.client_id)
    }

    /// Exactly four bytes; nothing is consumed.
    open spec fn spec_readable(data: Seq<u8>) -> bool {
        data.len() == 4
    }

    open spec fn spec_reads(data: Seq<u8>, m: Self, rest: Seq<u8>) -> bool {
        m.client_id == spec_u32_from_le_bytes(data) && rest == data
    }

    fn header() -> (r: GameMessageHeaders) {
        GameMessageHeaders::ClientDisconnect
    }

    fn serialize(&self) -> (r: Bytes) {
        let mut buf = bytes_mut_new();
        put_u32_le(&mut buf, self.client_id);
        freeze(buf)
    }

    fn deserialize(data: &mut Bytes) -> (r: Result<Self, String>) {
        let bytes = bytes_as_slice(data);
        if bytes.len() != 4 {
            return Err(length_error("ClientDisconnectedMsg", 4, bytes.len()));
        }
        Ok(ClientDisconnectedMsg { client_id: u32_from_le_bytes(bytes) })
    }
}

/// The broker welcomes a client: its id and the chunk it starts in.
#[derive(Debug, Clone, Copy, PartialEq, Eq, Structural)]
pub struct ClientWelcomeMsg {
    pub client_id: u32,
    pub chunk_x: i32,
    pub chunk_y: i32,
}

impl GameMessage for ClientWelcomeMsg {
    open spec fn spec_header() -> GameMessageHeaders {
        GameMessageHeaders::ClientWelcome
    }

    open spec fn spec_writable(&self) -> bool {
        true
    }

    /// Id, x and y, each on four little-endian bytes.
    open spec fn spec_encoding(&self) -> Seq<u8> {
        spec_u32_to_le_bytes(self.client_id) + spec_u32_to_le_bytes(self.chunk_x as u32)
            + spec_u32_to_le_bytes(self.chunk_y as u32)
    }

    /// Exactly twelve bytes; nothing is consumed.
    open spec fn spec_readable(data: Seq<u8>) -> bool {
        data.len() == 12
    }

    open spec fn spec_reads(data: Seq<u8>, m: Self, rest: Seq<u8>) -> bool {
        &&& m.client_id == spec_u32_from_le_bytes(data.subrange(0, 4))
        &&& m.chunk_x == spec_u32_from_le_bytes(data.subrange(4, 8)) as i32
        &&& m.chunk_y == spec_u32_from_le_bytes(data.subrange(8, 12)) as i32
        &&& rest == data
    }

    fn header() -> (r: GameMessageHeaders) {
        GameMessageHeaders::ClientWelcome
    }

    fn serialize(&self) -> (r: Bytes) {
        let mut buf = bytes_mut_new();
        put_u32_le(&mut buf, self.client_id);
        put_u32_le(&mut buf, self.chunk_x as u32);
        put_u32_le(&mut buf, self.chunk_y as u32);
        freeze(buf)
    }

    fn deserialize(data: &mut Bytes) -> (r: Result<Self, String>) {
        let bytes = bytes_as_slice(data);
        if bytes.len() != 12 {
            return Err(length_error("ClientWelcomeMsg", 12, bytes.len()));
        }
        let client_id = u32_from_le_bytes(slice_subrange(bytes, 0, 4));
        let chunk_x = u32_from_le_bytes(slice_subrange(bytes, 4, 8)) as i32;
        let chunk_y = u32_from_le_bytes(slice_subrange(bytes, 8, 12)) as i32;
        Ok(ClientWelcomeMsg { client_id, chunk_x, chunk_y })
    }
}

/// A client says hello with its pseudonym.
#[derive(Debug, Clone)]
pub struct ClientHelloMsg {
    pub pseudo: String,
}

impl GameMessage for ClientHelloMsg {
    open spec fn spec_header() -> GameMessageHeaders {
        GameMessageHeaders::ClientHello
    }

    open spec fn spec_writable(&self) -> bool {
        true
    }

    /// The length of the UTF-8 pseudonym on two little-endian bytes (cut to
    /// sixteen bits), then the pseudonym.
    open spec fn spec_encoding(&self) -> Seq<u8> {
        spec_u16_to_le_bytes(string_bytes(&self.pseudo).len() as u16) + string_bytes(&self.pseudo)
    }

    /// A length, that many bytes after it, and those bytes valid UTF-8;
    /// nothing is consumed.
    open spec fn spec_readable(data: Seq<u8>) -> bool {
        &&& data.len() >= 2
        &&& data.len() >= 2 + spec_u16_from_le_bytes(data.subrange(0, 2))
        &&& valid_utf8(data.subrange(2, 2 + spec_u16_from_le_bytes(data.subrange(0, 2))))
    }

    open spec fn spec_reads(data: Seq<u8>, m: Self, rest: Seq<u8>) -> bool {
        &&& m.pseudo@ == decode_utf8(
            data.subrange(2, 2 + spec_u16_from_le_bytes(data.subrange(0, 2))),
        )
        &&& rest == data
    }

    fn header() -> (r: GameMessageHeaders) {
        GameMessageHeaders::ClientHello
    }

    fn serialize(&self) -> (r: Bytes) {
        let pseudo_bytes = text_bytes(&self.pseudo);
        let mut buf = bytes_mut_new();
        put_u16_le(&mut buf, pseudo_bytes.len() as u16);
        put_slice(&mut buf, pseudo_bytes);
        freeze(buf)
    }

    fn deserialize(data: &mut Bytes) -> (r: Result<Self, String>) {
        let bytes = bytes_as_slice(data);
        if bytes.len() < 2 {
            return Err("ClientHelloMsg trop court pour contenir la longueur du pseudo".to_string());
        }
        let pseudo_len = u16_from_le_bytes(slice_subrange(bytes, 0, 2)) as usize;
        if bytes.len() - 2 < pseudo_len {
            return Err(length_error("ClientHelloMsg (pseudo)", pseudo_len, bytes.len() - 2));
        }
        match text_from_bytes(slice_subrange(bytes, 2, 2 + pseudo_len)) {
            Some(pseudo) => Ok(ClientHelloMsg { pseudo }),
            None => Err("ClientHelloMsg : pseudo non valide UTF-8".to_string()),
        }
    }
}

/// A written input message reads back as itself.
pub proof fn lemma_player_input_round_trip(m: PlayerInputMsg)
    ensures
        PlayerInputMsg::spec_readable(m.spec_encoding()),
        forall|m2: PlayerInputMsg, rest: Seq<u8>|
            PlayerInputMsg::spec_reads(m.spec_encoding(), m2, rest) ==> m2 == m,
{
    vstd::bytes::lemma_auto_spec_u32_to_from_le_bytes();
    vstd::bytes::lemma_auto_spec_u16_to_from_le_bytes();
    let e = m.spec_encoding();
    assert(e.subrange(0, 4) =~= spec_u32_to_le_bytes(m.client_id));
    assert(e.subrange(4, 6) =~= spec_u16_to_le_bytes(m.input_data.0));
}

/// A written hello whose pseudonym fits in sixteen bits of length reads
/// back with the same pseudonym.
pub proof fn lemma_client_hello_round_trip(m: ClientHelloMsg)
    requires
        string_bytes(&m.pseudo).len() <= u16::MAX,
    ensures
        ClientHelloMsg::spec_readable(m.spec_encoding()),
        forall|m2: ClientHelloMsg, rest: Seq<u8>|
            ClientHelloMsg::spec_reads(m.spec_encoding(), m2, rest) ==> m2.pseudo@ == m.pseudo@,
{
    vstd::bytes::lemma_auto_spec_u16_to_from_le_bytes();
    let b = string_bytes(&m.pseudo);
    let e = m.spec_encoding();
    assert(e.subrange(0, 2) =~= spec_u16_to_le_bytes(b.len() as u16));
    assert(e.subrange(2, 2 + b.len() as int) =~= b);
    vstd::utf8::encode_utf8_valid_utf8(m.pseudo@);
    vstd::utf8::encode_utf8_decode_utf8(m.pseudo@);
}

} // verus!
