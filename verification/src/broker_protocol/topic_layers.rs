//! One layer of a topic pattern: a set of byte strings, one of which goes into
//! the topic at that place.
use crate::bytes_io::{bytes_contents, bytes_mut_contents, bytes_remaining, bytes_to_vec, get_i16_le, get_i8, get_u16_le, get_u32_le, get_u8, put_i16_le, put_i8, put_slice, put_u16_le, put_u32_le, put_u8, split_to};
use crate::core_types::chunks::{GameChunk, GameChunkAera};
use crate::shared_replication::broker_message::ProtocolError;
use bytes::{Bytes, BytesMut};
use vstd::prelude::*;
use vstd::bytes::{spec_u16_from_le_bytes, spec_u16_to_le_bytes, spec_u32_from_le_bytes, spec_u32_to_le_bytes, u16_to_le_bytes};

verus! {

/// The instruction a layer stands for.
#[derive(Debug, Clone)]
pub enum TopicLayer {
    /// Exactly these bytes.
    Fixed(Vec<u8>),
    /// Each value of the range, inclusive, on one byte.
    RangeU8(u8, u8),
    /// Each value of the range, inclusive, on two little-endian bytes.
    RangeU16(u16, u16),
    /// Each value of the range, inclusive, on four little-endian bytes.
    RangeU32(u32, u32),
    /// Each value of the range, inclusive, on one byte (two's complement).
    RangeI8(i8, i8),
    /// Each value of the range, inclusive, on two little-endian bytes (two's complement).
    RangeI16(i16, i16),
    /// Each byte of the list, in order.
    ListU8(Vec<u8>),
}

/// A layer, with its byte vectors seen as sequences.
pub ghost enum LayerView {
    Fixed(Seq<u8>),
    RangeU8(u8, u8),
    RangeU16(u16, u16),
    RangeU32(u32, u32),
    RangeI8(i8, i8),
    RangeI16(i16, i16),
    ListU8(Seq<u8>),
}

impl View for TopicLayer {
    type V = LayerView;

    open spec fn view(&self) -> LayerView {
        match self {
            TopicLayer::Fixed(b) => LayerView::Fixed(b@),
            TopicLayer::RangeU8(a, b) => LayerView::RangeU8(*a, *b),
            TopicLayer::RangeU16(a, b) => LayerView::RangeU16(*a, *b),
            TopicLayer::RangeU32(a, b) => LayerView::RangeU32(*a, *b),
            TopicLayer::RangeI8(a, b) => LayerView::RangeI8(*a, *b),
            TopicLayer::RangeI16(a, b) => LayerView::RangeI16(*a, *b),
            TopicLayer::ListU8(b) => LayerView::ListU8(b@),
        }
    }
}

/// The bytes a layer is sent as: a tag byte, then its data.  A byte vector is
/// preceded by its length on one byte (the low byte of the length).
pub open spec fn layer_encoding(l: LayerView) -> Seq<u8> {
    match l {
        LayerView::Fixed(b) => seq![0x01u8, b.len() as u8] + b,
        LayerView::RangeU8(a, b) => seq![0x02u8, a, b],
        LayerView::RangeU16(a, b) => seq![0x03u8] + spec_u16_to_le_bytes(a) + spec_u16_to_le_bytes(b),
        LayerView::RangeU32(a, b) => seq![0x04u8] + spec_u32_to_le_bytes(a) + spec_u32_to_le_bytes(b),
        LayerView::RangeI8(a, b) => seq![0x05u8, a as u8, b as u8],
        LayerView::RangeI16(a, b) => seq![0x06u8] + spec_u16_to_le_bytes(a as u16)
            + spec_u16_to_le_bytes(b as u16),
        LayerView::ListU8(b) => seq![0x07u8, b.len() as u8] + b,
    }
}

/// A layer whose byte vectors can be sent: their lengths fit in one byte.
pub open spec fn layer_sendable(l: LayerView) -> bool {
    match l {
        LayerView::Fixed(b) => b.len() <= 255,
        LayerView::ListU8(b) => b.len() <= 255,
        _ => true,
    }
}

/// Reading a length-prefixed byte vector after its tag: the vector and what
/// follows, or the error and what is left.
pub open spec fn read_byte_vector(
    r: Seq<u8>,
    missing_len: &'static str,
    missing_data: &'static str,
) -> (Result<Seq<u8>, ProtocolError>, Seq<u8>) {
    if r.len() < 1 {
        (Err(ProtocolError::MalformedData(missing_len)), r)
    } else if r.len() - 1 < r[0] {
        (Err(ProtocolError::MalformedData(missing_data)), r.skip(1))
    } else {
        (Ok(r.skip(1).take(r[0] as int)), r.skip(1).skip(r[0] as int))
    }
}

/// Reading one layer from `s`, which holds at least its tag byte: the layer and
/// the bytes after it, or the error and the bytes left unread.
pub open spec fn layer_read(s: Seq<u8>) -> (Result<LayerView, ProtocolError>, Seq<u8>) {
    let tag = s[0];
    let r = s.skip(1);
    if tag == 0x01 {
        let (res, rest) = read_byte_vector(r, "Taille manquante pour Fixed", "Données manquantes pour Fixed");
        match res {
            Ok(b) => (Ok(LayerView::Fixed(b)), rest),
            Err(e) => (Err(e), rest),
        }
    } else if tag == 0x02 {
        if r.len() < 2 {
            (Err(ProtocolError::MalformedData("Données manquantes pour RangeU8")), r)
        } else {
            (Ok(LayerView::RangeU8(r[0], r[1])), r.skip(2))
        }
    } else if tag == 0x03 {
        if r.len() < 4 {
            (Err(ProtocolError::MalformedData("Données manquantes pour RangeU16")), r)
        } else {
            (
                Ok(
                    LayerView::RangeU16(
                        spec_u16_from_le_bytes(r.take(2)),
                        spec_u16_from_le_bytes(r.skip(2).take(2)),
                    ),
                ),
                r.skip(4),
            )
        }
    } else if tag == 0x04 {
        if r.len() < 8 {
            (Err(ProtocolError::MalformedData("Données manquantes pour RangeU32")), r)
        } else {
            (
                Ok(
                    LayerView::RangeU32(
                        spec_u32_from_le_bytes(r.take(4)),
                        spec_u32_from_le_bytes(r.skip(4).take(4)),
                    ),
                ),
                r.skip(8),
            )
        }
    } else if tag == 0x05 {
        if r.len() < 2 {
            (Err(ProtocolError::MalformedData("Données manquantes pour RangeI8")), r)
        } else {
            (Ok(LayerView::RangeI8(r[0] as i8, r[1] as i8)), r.skip(2))
        }
    } else if tag == 0x06 {
        if r.len() < 4 {
            (Err(ProtocolError::MalformedData("Données manquantes pour RangeI16")), r)
        } else {
            (
                Ok(
                    LayerView::RangeI16(
                        spec_u16_from_le_bytes(r.take(2)) as i16,
                        spec_u16_from_le_bytes(r.skip(2).take(2)) as i16,
                    ),
                ),
                r.skip(4),
            )
        }
    } else if tag == 0x07 {
        let (res, rest) = read_byte_vector(r, "Taille manquante pour ListU8", "Données manquantes pour ListU8");
        match res {
            Ok(b) => (Ok(LayerView::ListU8(b)), rest),
            Err(e) => (Err(e), rest),
        }
    } else {
        (Err(ProtocolError::MalformedData("Tag TopicLayer inconnu")), r)
    }
}

/// Reads a length-prefixed byte vector from `payload`.
fn read_byte_vector_exec(
    payload: &mut Bytes,
    missing_len: &'static str,
    missing_data: &'static str,
) -> (r: Result<Vec<u8>, ProtocolError>)
    ensures
        ({
            let (res, rest) = read_byte_vector(bytes_contents(*old(payload)), missing_len, missing_data);
            &&& bytes_contents(*final(payload)) == rest
            &&& match res {
                Ok(b) => r matches Ok(v) && v@ == b,
                Err(e) => r == Err::<Vec<u8>, ProtocolError>(e),
            }
        }),
{
    if bytes_remaining(payload) < 1 {
        return Err(ProtocolError::MalformedData(missing_len));
    }
    let len = get_u8(payload) as usize;
    if bytes_remaining(payload) < len {
        return Err(ProtocolError::MalformedData(missing_data));
    }
    let data = split_to(payload, len);
    Ok(bytes_to_vec(&data))
}

impl TopicLayer {
    /// Appends the layer's encoding to `buf`.
    pub fn serialize(&self, buf: &mut BytesMut)
        ensures
            bytes_mut_contents(*final(buf)) == bytes_mut_contents(*old(buf)) + layer_encoding(self@),
    {
        match self {
            TopicLayer::Fixed(bytes) => {
                put_u8(buf, 0x01);
                put_u8(buf, bytes.len() as u8);
                put_slice(buf, bytes.as_slice());
            },
            TopicLayer::RangeU8(min, max) => {
                put_u8(buf, 0x02);
                put_u8(buf, *min);
                put_u8(buf, *max);
            },
            TopicLayer::RangeU16(min, max) => {
                put_u8(buf, 0x03);
                put_u16_le(buf, *min);
                put_u16_le(buf, *max);
            },
            TopicLayer::RangeU32(min, max) => {
                put_u8(buf, 0x04);
                put_u32_le(buf, *min);
                put_u32_le(buf, *max);
            },
            TopicLayer::RangeI8(min, max) => {
                put_u8(buf, 0x05);
                put_i8(buf, *min);
                put_i8(buf, *max);
            },
            TopicLayer::RangeI16(min, max) => {
                put_u8(buf, 0x06);
                put_i16_le(buf, *min);
                put_i16_le(buf, *max);
            },
            TopicLayer::ListU8(bytes) => {
                put_u8(buf, 0x07);
                put_u8(buf, bytes.len() as u8);
                put_slice(buf, bytes.as_slice());
            },
        }
        assert(bytes_mut_contents(*buf) =~= bytes_mut_contents(*old(buf)) + layer_encoding(self@));
    }

    /// Reads one layer from the front of `payload`, which must hold at least
    /// the tag byte.
    pub fn deserialize(payload: &mut Bytes) -> (r: Result<TopicLayer, ProtocolError>)
        requires
            bytes_contents(*old(payload)).len() >= 1,
        ensures
            ({
                let (res, rest) = layer_read(bytes_contents(*old(payload)));
                &&& bytes_contents(*final(payload)) == rest
                &&& match res {
                    Ok(l) => r matches Ok(layer) && layer@ == l,
                    Err(e) => r == Err::<TopicLayer, ProtocolError>(e),
                }
            }),
    {
        let ghost s = bytes_contents(*payload);
        let tag = get_u8(payload);
        if tag == 0x01 {
            match read_byte_vector_exec(payload, "Taille manquante pour Fixed", "Données manquantes pour Fixed") {
                Ok(v) => Ok(TopicLayer::Fixed(v)),
                Err(e) => Err(e),
            }
        } else if tag == 0x02 {
            if bytes_remaining(payload) < 2 {
                return Err(ProtocolError::MalformedData("Données manquantes pour RangeU8"));
            }
            let a = get_u8(payload);
            let b = get_u8(payload);
            proof {
                assert(s.skip(1).skip(1).skip(1) =~= s.skip(1).skip(2));
            }
            Ok(TopicLayer::RangeU8(a, b))
        } else if tag == 0x03 {
            if bytes_remaining(payload) < 4 {
                return Err(ProtocolError::MalformedData("Données manquantes pour RangeU16"));
            }
            let a = get_u16_le(payload);
            let b = get_u16_le(payload);
            proof {
                assert(s.skip(1).skip(2).skip(2) =~= s.skip(1).skip(4));
            }
            Ok(TopicLayer::RangeU16(a, b))
        } else if tag == 0x04 {
            if bytes_remaining(payload) < 8 {
                return Err(ProtocolError::MalformedData("Données manquantes pour RangeU32"));
            }
            let a = get_u32_le(payload);
            let b = get_u32_le(payload);
            proof {
                assert(s.skip(1).skip(4).skip(4) =~= s.skip(1).skip(8));
            }
            Ok(TopicLayer::RangeU32(a, b))
        } else if tag == 0x05 {
            if bytes_remaining(payload) < 2 {
                return Err(ProtocolError::MalformedData("Données manquantes pour RangeI8"));
            }
            let a = get_i8(payload);
            let b = get_i8(payload);
            proof {
                assert(s.skip(1).skip(1).skip(1) =~= s.skip(1).skip(2));
            }
            Ok(TopicLayer::RangeI8(a, b))
        } else if tag == 0x06 {
            if bytes_remaining(payload) < 4 {
                return Err(ProtocolError::MalformedData("Données manquantes pour RangeI16"));
            }
            let a = get_i16_le(payload);
            let b = get_i16_le(payload);
            proof {
                assert(s.skip(1).skip(2).skip(2) =~= s.skip(1).skip(4));
            }
            Ok(TopicLayer::RangeI16(a, b))
        } else if tag == 0x07 {
            match read_byte_vector_exec(payload, "Taille manquante pour ListU8", "Données manquantes pour ListU8") {
                Ok(v) => Ok(TopicLayer::ListU8(v)),
                Err(e) => Err(e),
            }
        } else {
            Err(ProtocolError::MalformedData("Tag TopicLayer inconnu"))
        }
    }
}

/// Reading back the encoding of a sendable layer gives the layer, and leaves
/// exactly the bytes that followed it.
pub proof fn lemma_layer_round_trip(l: LayerView, rest: Seq<u8>)
    requires
        layer_sendable(l),
    ensures
        layer_read(layer_encoding(l) + rest) == (Ok::<LayerView, ProtocolError>(l), rest),
{
    vstd::bytes::lemma_auto_spec_u16_to_from_le_bytes();
    vstd::bytes::lemma_auto_spec_u32_to_from_le_bytes();
    let s = layer_encoding(l) + rest;
    match l {
        LayerView::Fixed(b) => {
            assert(s.skip(1).skip(1).take(b.len() as int) =~= b);
            assert(s.skip(1).skip(1).skip(b.len() as int) =~= rest);
        },
        LayerView::ListU8(b) => {
            assert(s.skip(1).skip(1).take(b.len() as int) =~= b);
            assert(s.skip(1).skip(1).skip(b.len() as int) =~= rest);
        },
        LayerView::RangeU8(a, b) => {
            assert(s.skip(1).skip(2) =~= rest);
        },
        LayerView::RangeI8(a, b) => {
            assert(s.skip(1).skip(2) =~= rest);
            assert((a as u8) as i8 == a) by (bit_vector);
            assert((b as u8) as i8 == b) by (bit_vector);
        },
        LayerView::RangeU16(a, b) => {
            assert(s.skip(1).take(2) =~= spec_u16_to_le_bytes(a));
            assert(s.skip(1).skip(2).take(2) =~= spec_u16_to_le_bytes(b));
            assert(s.skip(1).skip(4) =~= rest);
        },
        LayerView::RangeI16(a, b) => {
            assert(s.skip(1).take(2) =~= spec_u16_to_le_bytes(a as u16));
            assert(s.skip(1).skip(2).take(2) =~= spec_u16_to_le_bytes(b as u16));
            assert(s.skip(1).skip(4) =~= rest);
            assert((a as u16) as i16 == a) by (bit_vector);
            assert((b as u16) as i16 == b) by (bit_vector);
        },
        LayerView::RangeU32(a, b) => {
            assert(s.skip(1).take(4) =~= spec_u32_to_le_bytes(a));
            assert(s.skip(1).skip(4).take(4) =~= spec_u32_to_le_bytes(b));
            assert(s.skip(1).skip(8) =~= rest);
        },
    }
}

/// Turning a value into one layer.
pub trait IntoTopicLayer: Sized {
    /// The layer the value becomes.
    spec fn layer_of(self) -> LayerView;

    fn into_layer(self) -> (r: TopicLayer)
        ensures
            r@ == self.layer_of(),
    ;
}

/// Turning a value into a sequence of layers.
pub trait IntoTopicLayers: Sized {
    /// The layers the value becomes.
    spec fn layers_of(self) -> Seq<LayerView>;

    fn into_layers(self) -> (r: Vec<TopicLayer>)
        ensures
            r@.map_values(|l: TopicLayer| l@) == self.layers_of(),
    ;
}

impl IntoTopicLayer for core::ops::RangeInclusive<u8> {
    open spec fn layer_of(self) -> LayerView {
        LayerView::RangeU8(self@.start, self@.end)
    }

    fn into_layer(self) -> (r: TopicLayer) {
        TopicLayer::RangeU8(*self.start(), *self.end())
    }
}

impl IntoTopicLayer for core::ops::RangeInclusive<u16> {
    open spec fn layer_of(self) -> LayerView {
        LayerView::RangeU16(self@.start, self@.end)
    }

    fn into_layer(self) -> (r: TopicLayer) {
        TopicLayer::RangeU16(*self.start(), *self.end())
    }
}

impl IntoTopicLayer for core::ops::RangeInclusive<u32> {
    open spec fn layer_of(self) -> LayerView {
        LayerView::RangeU32(self@.start, self@.end)
    }

    fn into_layer(self) -> (r: TopicLayer) {
        TopicLayer::RangeU32(*self.start(), *self.end())
    }
}

impl IntoTopicLayer for core::ops::RangeInclusive<i8> {
    open spec fn layer_of(self) -> LayerView {
        LayerView::RangeI8(self@.start, self@.end)
    }

    fn into_layer(self) -> (r: TopicLayer) {
        TopicLayer::RangeI8(*self.start(), *self.end())
    }
}

impl IntoTopicLayer for core::ops::RangeInclusive<i16> {
    open spec fn layer_of(self) -> LayerView {
        LayerView::RangeI16(self@.start, self@.end)
    }

    fn into_layer(self) -> (r: TopicLayer) {
        TopicLayer::RangeI16(*self.start(), *self.end())
    }
}

impl IntoTopicLayer for GameChunk {
    /// A chunk is the fixed bytes of its x then its y, little-endian.
    open spec fn layer_of(self) -> LayerView {
        LayerView::Fixed(spec_u16_to_le_bytes(self.x as u16) + spec_u16_to_le_bytes(self.y as u16))
    }

    fn into_layer(self) -> (r: TopicLayer) {
        proof {
            vstd::bytes::lemma_auto_spec_u16_to_from_le_bytes();
        }
        let le_x = u16_to_le_bytes(self.x as u16);
        let le_y = u16_to_le_bytes(self.y as u16);
        let mut v: Vec<u8> = Vec::new();
        v.push(le_x[0]);
        v.push(le_x[1]);
        v.push(le_y[0]);
        v.push(le_y[1]);
        assert(v@ =~= spec_u16_to_le_bytes(self.x as u16) + spec_u16_to_le_bytes(self.y as u16));
        TopicLayer::Fixed(v)
    }
}

impl IntoTopicLayers for GameChunkAera {
    /// An area is the range of its x, then the range of its y.
    open spec fn layers_of(self) -> Seq<LayerView> {
        seq![LayerView::RangeI16(self.x_min, self.x_max), LayerView::RangeI16(self.y_min, self.y_max)]
    }

    fn into_layers(self) -> (r: Vec<TopicLayer>) {
        let mut v: Vec<TopicLayer> = Vec::new();
        v.push(TopicLayer::RangeI16(self.x_min, self.x_max));
        v.push(TopicLayer::RangeI16(self.y_min, self.y_max));
        assert(v@.map_values(|l: TopicLayer| l@) =~= self.layers_of());
        v
    }
}

impl<T: IntoTopicLayer> IntoTopicLayers for Vec<T> {
    /// A vector is the layer of each item, in order.
    open spec fn layers_of(self) -> Seq<LayerView> {
        self@.map_values(|t: T| t.layer_of())
    }

    fn into_layers(self) -> (r: Vec<TopicLayer>) {
        let ghost items = self@;
        let mut rest = self;
        let mut r: Vec<TopicLayer> = Vec::new();
        while rest.len() > 0
            invariant
                r@.len() + rest@.len() == items.len(),
                rest@ == items.skip(r@.len() as int),
                forall|i: int| 0 <= i < r@.len() ==> #[trigger] r@[i]@ == items[i].layer_of(),
            decreases rest@.len(),
        {
            let ghost k = r@.len();
            let item = rest.remove(0);
            assert(item == items[k as int]);
            r.push(item.into_layer());
            assert(rest@ =~= items.skip(r@.len() as int));
        }
        assert(r@.map_values(|l: TopicLayer| l@) =~= items.map_values(|t: T| t.layer_of()));
        r
    }
}

/// `RangeInclusive::start`: the lower bound the range was made with.
pub assume_specification<Idx>[ core::ops::RangeInclusive::<Idx>::start ](
    r: &core::ops::RangeInclusive<Idx>,
) -> (ret: &Idx)
    ensures
        *ret == r@.start,
;

/// `RangeInclusive::end`: the upper bound the range was made with.
pub assume_specification<Idx>[ core::ops::RangeInclusive::<Idx>::end ](
    r: &core::ops::RangeInclusive<Idx>,
) -> (ret: &Idx)
    ensures
        *ret == r@.end,
;

} // verus!
