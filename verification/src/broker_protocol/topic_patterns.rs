//! Topic patterns: a sequence of layers that stands for every topic made by
//! picking one value in each layer, in order.  A server subscribes to a whole
//! area of chunks with one pattern.
use crate::broker_protocol::topic_layers::{
    layer_encoding, layer_read, layer_sendable, IntoTopicLayer, IntoTopicLayers, LayerView, TopicLayer,
};
use crate::broker_protocol::topics::{head_byte, Namespace, SecurityDomain, Topic, TopicBuilder, TopicDefaults};
use crate::bytes_io::{bytes_contents, bytes_len, bytes_mut_contents, bytes_remaining, get_u8, put_u8};
use crate::shared_replication::broker_message::ProtocolError;
use bytes::{Bytes, BytesMut};
use vstd::prelude::*;
use vstd::bytes::{spec_u16_to_le_bytes, spec_u32_to_le_bytes, u16_to_le_bytes, u32_to_le_bytes};

verus! {

/// A pattern of topics.
#[derive(Debug, Clone)]
pub struct TopicPattern(pub Vec<TopicLayer>);

impl View for TopicPattern {
    type V = Seq<LayerView>;

    open spec fn view(&self) -> Seq<LayerView> {
        self.0@.map_values(|l: TopicLayer| l@)
    }
}

/// The encodings of the layers, one after the other.
pub open spec fn layers_encoding(ls: Seq<LayerView>) -> Seq<u8>
    decreases ls.len(),
{
    if ls.len() == 0 {
        Seq::empty()
    } else {
        layers_encoding(ls.drop_last()) + layer_encoding(ls.last())
    }
}

/// The bytes a pattern is sent as: its number of layers on one byte (the low
/// byte of the count), then each layer.
pub open spec fn pattern_encoding(ls: Seq<LayerView>) -> Seq<u8> {
    seq![ls.len() as u8] + layers_encoding(ls)
}

/// A pattern that can be sent: at most 255 layers, each sendable.
pub open spec fn pattern_sendable(ls: Seq<LayerView>) -> bool {
    ls.len() <= 255 && forall|i: int| 0 <= i < ls.len() ==> layer_sendable(#[trigger] ls[i])
}

/// Whether reading `count` layers from `s` never starts a layer on an empty
/// buffer (reading a tag from an empty buffer panics).
pub open spec fn layers_readable(s: Seq<u8>, count: nat) -> bool
    decreases count,
{
    if count == 0 {
        true
    } else if s.len() == 0 {
        false
    } else {
        match layer_read(s).0 {
            Ok(_) => layers_readable(layer_read(s).1, (count - 1) as nat),
            Err(_) => true,
        }
    }
}

/// Reading `count` layers from `s`: the layers and the bytes after them, or the
/// first error and the bytes left unread.
pub open spec fn layers_read(s: Seq<u8>, count: nat) -> (Result<Seq<LayerView>, ProtocolError>, Seq<u8>)
    decreases count,
{
    if count == 0 {
        (Ok(Seq::empty()), s)
    } else {
        let (r, rest) = layer_read(s);
        match r {
            Ok(l) => {
                let (rr, rest2) = layers_read(rest, (count - 1) as nat);
                match rr {
                    Ok(ls) => (Ok(seq![l] + ls), rest2),
                    Err(e) => (Err(e), rest2),
                }
            },
            Err(e) => (Err(e), rest),
        }
    }
}

/// Whether reading a pattern from `s` completes without panicking.
pub open spec fn pattern_readable(s: Seq<u8>) -> bool {
    s.len() == 0 || layers_readable(s.skip(1), s[0] as nat)
}

/// Reading a pattern from `s`.
pub open spec fn pattern_read(s: Seq<u8>) -> (Result<Seq<LayerView>, ProtocolError>, Seq<u8>) {
    if s.len() < 1 {
        (
            Err(ProtocolError::BufferTooShort { expected: 1, actual: 0, context: "TopicPattern Count" }),
            s,
        )
    } else {
        layers_read(s.skip(1), s[0] as nat)
    }
}

/// Topic bytes padded with zeros to the sixteen bytes of a topic.
pub open spec fn pad_topic(prefix: Seq<u8>) -> Seq<u8> {
    prefix + Seq::new((16 - prefix.len()) as nat, |i: int| 0u8)
}

/// The byte strings a layer offers, in order.
pub open spec fn layer_values(l: LayerView) -> Seq<Seq<u8>> {
    match l {
        LayerView::Fixed(b) => seq![b],
        LayerView::RangeU8(a, b) => Seq::new(
            if a <= b { (b - a + 1) as nat } else { 0 },
            |i: int| seq![(a + i) as u8],
        ),
        LayerView::RangeU16(a, b) => Seq::new(
            if a <= b { (b - a + 1) as nat } else { 0 },
            |i: int| spec_u16_to_le_bytes((a + i) as u16),
        ),
        LayerView::RangeU32(a, b) => Seq::new(
            if a <= b { (b - a + 1) as nat } else { 0 },
            |i: int| spec_u32_to_le_bytes((a + i) as u32),
        ),
        LayerView::RangeI8(a, b) => Seq::new(
            if a <= b { (b - a + 1) as nat } else { 0 },
            |i: int| seq![((a + i) as i8) as u8],
        ),
        LayerView::RangeI16(a, b) => Seq::new(
            if a <= b { (b - a + 1) as nat } else { 0 },
            |i: int| spec_u16_to_le_bytes(((a + i) as i16) as u16),
        ),
        LayerView::ListU8(b) => Seq::new(b.len(), |i: int| seq![b[i]]),
    }
}

/// The topics a pattern stands for from layer `idx` on, after `prefix`: every
/// choice of one value per remaining layer, the first layer varying slowest;
/// a choice whose bytes exceed the sixteen bytes of a topic gives no topic.
pub open spec fn unpack_from(layers: Seq<LayerView>, idx: nat, prefix: Seq<u8>) -> Seq<Seq<u8>>
    decreases layers.len() - idx, 0nat,
{
    if idx >= layers.len() {
        if prefix.len() <= 16 {
            seq![pad_topic(prefix)]
        } else {
            Seq::empty()
        }
    } else {
        unpack_values(layers, idx, prefix, layer_values(layers[idx as int]))
    }
}

/// The topics of layers `idx + 1..` after `prefix` followed by each of `vals`,
/// one value after the other.
pub open spec fn unpack_values(
    layers: Seq<LayerView>,
    idx: nat,
    prefix: Seq<u8>,
    vals: Seq<Seq<u8>>,
) -> Seq<Seq<u8>>
    decreases layers.len() - idx - 1, vals.len() + 1,
{
    if vals.len() == 0 || idx >= layers.len() {
        Seq::empty()
    } else {
        unpack_values(layers, idx, prefix, vals.drop_last()) + unpack_from(
            layers,
            idx + 1,
            prefix + vals.last(),
        )
    }
}

/// The topics a pattern stands for.
pub open spec fn pattern_topics(layers: Seq<LayerView>) -> Seq<Seq<u8>> {
    unpack_from(layers, 0, Seq::empty())
}

/// A prefix longer than a topic leaves no topic.
proof fn lemma_unpack_too_long(layers: Seq<LayerView>, idx: nat, prefix: Seq<u8>)
    requires
        prefix.len() > 16,
    ensures
        unpack_from(layers, idx, prefix) == Seq::<Seq<u8>>::empty(),
    decreases layers.len() - idx, 0nat,
{
    if idx < layers.len() {
        lemma_unpack_values_too_long(layers, idx, prefix, layer_values(layers[idx as int]));
    }
}

proof fn lemma_unpack_values_too_long(
    layers: Seq<LayerView>,
    idx: nat,
    prefix: Seq<u8>,
    vals: Seq<Seq<u8>>,
)
    requires
        prefix.len() > 16,
        idx < layers.len(),
    ensures
        unpack_values(layers, idx, prefix, vals) == Seq::<Seq<u8>>::empty(),
    decreases layers.len() - idx - 1, vals.len() + 1,
{
    if vals.len() > 0 {
        lemma_unpack_values_too_long(layers, idx, prefix, vals.drop_last());
        lemma_unpack_too_long(layers, idx + 1, prefix + vals.last());
        assert(unpack_values(layers, idx, prefix, vals) =~= Seq::<Seq<u8>>::empty());
    }
}

/// The views of a vector of topics.
pub open spec fn topics_view(v: Seq<Topic>) -> Seq<Seq<u8>> {
    v.map_values(|t: Topic| t@)
}

/// A builder that holds exactly `prefix`.
spec fn builder_holds(b: TopicBuilder, prefix: Seq<u8>) -> bool {
    &&& prefix.len() <= 16
    &&& b.position() == prefix.len()
    &&& b.bytes() == pad_topic(prefix)
}

impl TopicPattern {
    /// Appends the pattern's encoding to `buf`.
    pub fn serialize(&self, buf: &mut BytesMut)
        ensures
            bytes_mut_contents(*final(buf)) == bytes_mut_contents(*old(buf)) + pattern_encoding(self@),
    {
        let n = self.0.len();
        put_u8(buf, n as u8);
        let ghost start = bytes_mut_contents(*old(buf));
        let mut i: usize = 0;
        while i < n
            invariant
                n == self.0@.len(),
                0 <= i <= n,
                bytes_mut_contents(*buf) == start + seq![n as u8] + layers_encoding(
                    self@.take(i as int),
                ),
            decreases n - i,
        {
            self.0[i].serialize(buf);
            assert(self@.take(i + 1).drop_last() =~= self@.take(i as int));
            assert(self@.take(i + 1).last() == self.0@[i as int]@);
            i = i + 1;
        }
        assert(self@.take(n as int) =~= self@);
        assert(bytes_mut_contents(*buf) =~= start + pattern_encoding(self@));
    }

    /// Whether a pattern can be read from the front of `payload` without
    /// reading a layer tag from an empty buffer.
    pub fn is_readable(payload: &Bytes) -> (r: bool)
        ensures
            r == pattern_readable(bytes_contents(*payload)),
    {
        let ghost s = bytes_contents(*payload);
        let mut b = payload.clone();
        if bytes_len(&b) == 0 {
            return true;
        }
        let count = get_u8(&mut b);
        assert(bytes_contents(b) == s.skip(1));
        let mut k: u8 = count;
        while k > 0
            invariant
                s == bytes_contents(*payload),
                pattern_readable(s) == layers_readable(bytes_contents(b), k as nat),
            decreases k,
        {
            if bytes_len(&b) == 0 {
                return false;
            }
            match TopicLayer::deserialize(&mut b) {
                Ok(_) => {},
                Err(_) => {
                    return true;
                },
            }
            k = k - 1;
        }
        true
    }

    /// Reads a pattern from the front of `payload` as `deserialize` does, or
    /// gives `None`, leaving `payload` as it was, when that would read a
    /// layer tag from an empty buffer.
    pub fn try_deserialize(payload: &mut Bytes) -> (r: Option<Result<Self, ProtocolError>>)
        ensures
            !pattern_readable(bytes_contents(*old(payload))) ==> r is None && bytes_contents(
                *final(payload),
            ) == bytes_contents(*old(payload)),
            pattern_readable(bytes_contents(*old(payload))) ==> ({
                let (res, rest) = pattern_read(bytes_contents(*old(payload)));
                &&& bytes_contents(*final(payload)) == rest
                &&& match res {
                    Ok(ls) => r matches Some(Ok(p)) && p@ == ls,
                    Err(e) => r == Some(Err::<Self, ProtocolError>(e)),
                }
            }),
    {
        if !Self::is_readable(payload) {
            return None;
        }
        Some(Self::deserialize(payload))
    }

    /// Reads a pattern from the front of `payload`: its layer count, then its
    /// layers.  Refused when the count is missing or a layer is malformed.
    pub fn deserialize(payload: &mut Bytes) -> (r: Result<Self, ProtocolError>)
        requires
            pattern_readable(bytes_contents(*old(payload))),
        ensures
            ({
                let (res, rest) = pattern_read(bytes_contents(*old(payload)));
                &&& bytes_contents(*final(payload)) == rest
                &&& match res {
                    Ok(ls) => r matches Ok(p) && p@ == ls,
                    Err(e) => r == Err::<Self, ProtocolError>(e),
                }
            }),
    {
        if bytes_remaining(payload) < 1 {
            return Err(
                ProtocolError::BufferTooShort {
                    expected: 1,
                    actual: bytes_remaining(payload),
                    context: "TopicPattern Count",
                },
            );
        }
        let ghost s = bytes_contents(*payload);
        let count = get_u8(payload) as usize;
        let mut layers: Vec<TopicLayer> = Vec::new();
        let mut k: usize = 0;
        while k < count
            invariant
                0 <= k <= count,
                s == bytes_contents(*old(payload)),
                s.len() >= 1,
                count == s[0],
                layers@.len() == k,
                layers_readable(bytes_contents(*payload), (count - k) as nat),
                ({
                    let (res, rest) = layers_read(s.skip(1), count as nat);
                    let (res_k, rest_k) = layers_read(bytes_contents(*payload), (count - k) as nat);
                    &&& rest == rest_k
                    &&& match res {
                        Ok(ls) => res_k matches Ok(tail) && ls == layers@.map_values(
                            |l: TopicLayer| l@,
                        ) + tail,
                        Err(e) => res_k == Err::<Seq<LayerView>, ProtocolError>(e),
                    }
                }),
            decreases count - k,
        {
            let ghost before = bytes_contents(*payload);
            match TopicLayer::deserialize(payload) {
                Ok(layer) => {
                    let ghost (res_k, rest_k) = layers_read(before, (count - k) as nat);
                    let ghost (res_k1, rest_k1) = layers_read(bytes_contents(*payload), (count - k - 1) as nat);
                    proof {
                        assert(rest_k == rest_k1);
                    }
                    layers.push(layer);
                    proof {
                        let (res, rest) = layers_read(s.skip(1), count as nat);
                        match res {
                            Ok(ls) => {
                                let tail1 = res_k1->Ok_0;
                                assert(layers@.map_values(|l: TopicLayer| l@) =~= layers@.drop_last().map_values(
                                    |l: TopicLayer| l@,
                                ).push(layer@));
                                assert(seq![layer@] + tail1 =~= res_k->Ok_0);
                                assert(ls =~= layers@.map_values(|l: TopicLayer| l@) + tail1);
                            },
                            Err(e) => {},
                        }
                    }
                    k = k + 1;
                },
                Err(e) => {
                    proof {
                        assert(layers_read(before, (count - k) as nat).0 == Err::<
                            Seq<LayerView>,
                            ProtocolError,
                        >(e));
                        assert(layers_read(before, (count - k) as nat).1 == bytes_contents(*payload));
                    }
                    return Err(e);
                },
            }
        }
        let ghost (res, rest) = layers_read(s.skip(1), count as nat);
        proof {
            match res {
                Ok(ls) => {
                    assert(ls =~= layers@.map_values(|l: TopicLayer| l@));
                },
                Err(e) => {},
            }
        }
        Ok(TopicPattern(layers))
    }

    /// Every topic the pattern stands for, appended to `out` in order (the
    /// first layer varying slowest).  Choices whose bytes exceed a topic are
    /// skipped.
    pub fn unpack_into(&self, out: &mut Vec<Topic>)
        ensures
            topics_view(final(out)@) == topics_view(old(out)@) + pattern_topics(self@),
    {
        let base_builder = TopicBuilder::empty();
        assert(base_builder.bytes() =~= pad_topic(Seq::empty()));
        self.unpack_recursive(base_builder, 0, out, Ghost(Seq::empty()));
    }

    /// Appends the topics of layers `layer_idx..` after the bytes held by
    /// `current_builder`.
    fn unpack_recursive(
        &self,
        current_builder: TopicBuilder,
        layer_idx: usize,
        out: &mut Vec<Topic>,
        Ghost(prefix): Ghost<Seq<u8>>,
    )
        requires
            layer_idx <= self.0@.len(),
            builder_holds(current_builder, prefix),
        ensures
            topics_view(final(out)@) == topics_view(old(out)@) + unpack_from(
                self@,
                layer_idx as nat,
                prefix,
            ),
        decreases self.0@.len() - layer_idx, 1nat,
    {
        if layer_idx == self.0.len() {
            let topic = current_builder.build();
            out.push(topic);
            assert(topics_view(out@) =~= topics_view(old(out)@) + seq![pad_topic(prefix)]);
            return;
        }
        let ghost vals = layer_values(self@[layer_idx as int]);
        let ghost layers = self@;
        let ghost idx = layer_idx as nat;
        assert(unpack_from(layers, idx, prefix) == unpack_values(layers, idx, prefix, vals));
        match &self.0[layer_idx] {
            TopicLayer::Fixed(bytes) => {
                self.push_value(current_builder, layer_idx, bytes.as_slice(), out, Ghost(prefix));
                assert(self@[layer_idx as int] == LayerView::Fixed(bytes@));
                assert(idx < layers.len());
                assert(vals =~= seq![bytes@]);
                assert(vals.drop_last() =~= Seq::<Seq<u8>>::empty());
                assert(vals.last() == bytes@);
                assert(unpack_values(layers, idx, prefix, vals.drop_last()) == Seq::<Seq<u8>>::empty());
                assert(unpack_values(layers, idx, prefix, vals) =~= unpack_from(layers, idx + 1, prefix + bytes@));
            },
            TopicLayer::ListU8(list) => {
                let n = list.len();
                let mut j: usize = 0;
                while j < n
                    invariant
                        n == list@.len(),
                        0 <= j <= n,
                        layer_idx < self.0@.len(),
                        builder_holds(current_builder, prefix),
                        vals == Seq::new(list@.len(), |i: int| seq![list@[i]]),
                        layers == self@,
                            idx == layer_idx,
                        topics_view(out@) == topics_view(old(out)@) + unpack_values(
                            layers,
                            idx,
                            prefix,
                            vals.take(j as int),
                        ),
                    decreases n - j,
                {
                    let one = [list[j]];
                    assert(one@ =~= vals[j as int]);
                    self.push_value(current_builder, layer_idx, &one, out, Ghost(prefix));
                    assert(vals.take(j + 1).drop_last() =~= vals.take(j as int));
                    j = j + 1;
                }
                assert(vals.take(n as int) =~= vals);
            },
            TopicLayer::RangeU8(min, max) => {
                let (min, max) = (*min, *max);
                if min <= max {
                    let mut val = min;
                    loop
                        invariant_except_break
                            topics_view(out@) == topics_view(old(out)@) + unpack_values(
                                layers,
                                idx,
                                prefix,
                                vals.take(val - min),
                            ),
                        invariant
                            min <= val <= max,
                            layer_idx < self.0@.len(),
                            builder_holds(current_builder, prefix),
                            vals == Seq::new((max - min + 1) as nat, |i: int| seq![(min + i) as u8]),
                            layers == self@,
                                idx == layer_idx,
                        ensures
                            topics_view(out@) == topics_view(old(out)@) + unpack_values(
                                layers,
                                idx,
                                prefix,
                                vals,
                            ),
                        decreases max - val,
                    {
                        let one = [val];
                        assert(one@ =~= vals[val - min]);
                        self.push_value(current_builder, layer_idx, &one, out, Ghost(prefix));
                        assert(vals.take(val - min + 1).drop_last() =~= vals.take(val - min));
                        if val == max {
                            assert(vals.take(val - min + 1) =~= vals);
                            break;
                        }
                        val = val + 1;
                    }
                } else {
                    assert(vals =~= Seq::<Seq<u8>>::empty());
                    assert(out@ =~= old(out)@);
                }
            },
            TopicLayer::RangeI8(min, max) => {
                let (min, max) = (*min, *max);
                if min <= max {
                    let mut val = min;
                    loop
                        invariant_except_break
                            topics_view(out@) == topics_view(old(out)@) + unpack_values(
                                layers,
                                idx,
                                prefix,
                                vals.take(val - min),
                            ),
                        invariant
                            min <= val <= max,
                            layer_idx < self.0@.len(),
                            builder_holds(current_builder, prefix),
                            vals == Seq::new(
                                (max - min + 1) as nat,
                                |i: int| seq![((min + i) as i8) as u8],
                            ),
                            layers == self@,
                                idx == layer_idx,
                        ensures
                            topics_view(out@) == topics_view(old(out)@) + unpack_values(
                                layers,
                                idx,
                                prefix,
                                vals,
                            ),
                        decreases max - val,
                    {
                        let one = [val as u8];
                        assert(one@ =~= vals[val - min]);
                        self.push_value(current_builder, layer_idx, &one, out, Ghost(prefix));
                        assert(vals.take(val - min + 1).drop_last() =~= vals.take(val - min));
                        if val == max {
                            assert(vals.take(val - min + 1) =~= vals);
                            break;
                        }
                        val = val + 1;
                    }
                } else {
                    assert(vals =~= Seq::<Seq<u8>>::empty());
                    assert(out@ =~= old(out)@);
                }
            },
            TopicLayer::RangeU16(min, max) => {
                let (min, max) = (*min, *max);
                if min <= max {
                    let mut val = min;
                    loop
                        invariant_except_break
                            topics_view(out@) == topics_view(old(out)@) + unpack_values(
                                layers,
                                idx,
                                prefix,
                                vals.take(val - min),
                            ),
                        invariant
                            min <= val <= max,
                            layer_idx < self.0@.len(),
                            builder_holds(current_builder, prefix),
                            vals == Seq::new(
                                (max - min + 1) as nat,
                                |i: int| spec_u16_to_le_bytes((min + i) as u16),
                            ),
                            layers == self@,
                                idx == layer_idx,
                        ensures
                            topics_view(out@) == topics_view(old(out)@) + unpack_values(
                                layers,
                                idx,
                                prefix,
                                vals,
                            ),
                        decreases max - val,
                    {
                        let bytes = u16_to_le_bytes(val);
                        assert(bytes@ =~= vals[val - min]);
                        self.push_value(current_builder, layer_idx, bytes.as_slice(), out, Ghost(prefix));
                        assert(vals.take(val - min + 1).drop_last() =~= vals.take(val - min));
                        if val == max {
                            assert(vals.take(val - min + 1) =~= vals);
                            break;
                        }
                        val = val + 1;
                    }
                } else {
                    assert(vals =~= Seq::<Seq<u8>>::empty());
                    assert(out@ =~= old(out)@);
                }
            },
            TopicLayer::RangeI16(min, max) => {
                let (min, max) = (*min, *max);
                if min <= max {
                    let mut val = min;
                    loop
                        invariant_except_break
                            topics_view(out@) == topics_view(old(out)@) + unpack_values(
                                layers,
                                idx,
                                prefix,
                                vals.take(val - min),
                            ),
                        invariant
                            min <= val <= max,
                            layer_idx < self.0@.len(),
                            builder_holds(current_builder, prefix),
                            vals == Seq::new(
                                (max - min + 1) as nat,
                                |i: int| spec_u16_to_le_bytes(((min + i) as i16) as u16),
                            ),
                            layers == self@,
                                idx == layer_idx,
                        ensures
                            topics_view(out@) == topics_view(old(out)@) + unpack_values(
                                layers,
                                idx,
                                prefix,
                                vals,
                            ),
                        decreases max - val,
                    {
                        let bytes = u16_to_le_bytes(val as u16);
                        assert(bytes@ =~= vals[val - min]);
                        self.push_value(current_builder, layer_idx, bytes.as_slice(), out, Ghost(prefix));
                        assert(vals.take(val - min + 1).drop_last() =~= vals.take(val - min));
                        if val == max {
                            assert(vals.take(val - min + 1) =~= vals);
                            break;
                        }
                        val = val + 1;
                    }
                } else {
                    assert(vals =~= Seq::<Seq<u8>>::empty());
                    assert(out@ =~= old(out)@);
                }
            },
            TopicLayer::RangeU32(min, max) => {
                let (min, max) = (*min, *max);
                if min <= max {
                    let mut val = min;
                    loop
                        invariant_except_break
                            topics_view(out@) == topics_view(old(out)@) + unpack_values(
                                layers,
                                idx,
                                prefix,
                                vals.take(val - min),
                            ),
                        invariant
                            min <= val <= max,
                            layer_idx < self.0@.len(),
                            builder_holds(current_builder, prefix),
                            vals == Seq::new(
                                (max - min + 1) as nat,
                                |i: int| spec_u32_to_le_bytes((min + i) as u32),
                            ),
                            layers == self@,
                                idx == layer_idx,
                        ensures
                            topics_view(out@) == topics_view(old(out)@) + unpack_values(
                                layers,
                                idx,
                                prefix,
                                vals,
                            ),
                        decreases max - val,
                    {
                        let bytes = u32_to_le_bytes(val);
                        assert(bytes@ =~= vals[val - min]);
                        self.push_value(current_builder, layer_idx, bytes.as_slice(), out, Ghost(prefix));
                        assert(vals.take(val - min + 1).drop_last() =~= vals.take(val - min));
                        if val == max {
                            assert(vals.take(val - min + 1) =~= vals);
                            break;
                        }
                        val = val + 1;
                    }
                } else {
                    assert(vals =~= Seq::<Seq<u8>>::empty());
                    assert(out@ =~= old(out)@);
                }
            },
        }
    }

    /// Appends the topics of layers `layer_idx + 1..` after the builder's bytes
    /// followed by `value`; nothing when those bytes exceed a topic.
    fn push_value(
        &self,
        current_builder: TopicBuilder,
        layer_idx: usize,
        value: &[u8],
        out: &mut Vec<Topic>,
        Ghost(prefix): Ghost<Seq<u8>>,
    )
        requires
            layer_idx < self.0@.len(),
            builder_holds(current_builder, prefix),
        ensures
            topics_view(final(out)@) == topics_view(old(out)@) + unpack_from(
                self@,
                (layer_idx + 1) as nat,
                prefix + value@,
            ),
        decreases self.0@.len() - layer_idx, 0nat,
    {
        if value.len() > 16 - current_builder.written() {
            proof {
                lemma_unpack_too_long(self@, (layer_idx + 1) as nat, prefix + value@);
            }
            assert(out@ =~= old(out)@);
            return;
        }
        let n = self.0.len();
        let next_builder = current_builder.append(value);
        assert(next_builder.bytes() =~= pad_topic(prefix + value@));
        self.unpack_recursive(next_builder, layer_idx + 1, out, Ghost(prefix + value@));
    }
}

impl TopicPattern {
    /// An empty pattern.
    pub fn new() -> (r: Self)
        ensures
            r@ == Seq::<LayerView>::empty(),
    {
        let r = TopicPattern(Vec::new());
        assert(r@ =~= Seq::<LayerView>::empty());
        r
    }

    /// Adds a layer of fixed bytes.
    pub fn with_fixed(self, bytes: Vec<u8>) -> (r: Self)
        ensures
            r@ == self@.push(LayerView::Fixed(bytes@)),
    {
        let mut v = self.0;
        v.push(TopicLayer::Fixed(bytes));
        let r = TopicPattern(v);
        assert(r@ =~= self@.push(LayerView::Fixed(bytes@)));
        r
    }

    /// Adds a layer that offers each byte of the list.
    pub fn with_list(self, list: Vec<u8>) -> (r: Self)
        ensures
            r@ == self@.push(LayerView::ListU8(list@)),
    {
        let mut v = self.0;
        v.push(TopicLayer::ListU8(list));
        let r = TopicPattern(v);
        assert(r@ =~= self@.push(LayerView::ListU8(list@)));
        r
    }

    /// Adds the layer that `range` becomes (an inclusive range of integers).
    pub fn with_range<R: IntoTopicLayer>(self, range: R) -> (r: Self)
        ensures
            r@ == self@.push(range.layer_of()),
    {
        let mut v = self.0;
        v.push(range.into_layer());
        let r = TopicPattern(v);
        assert(r@ =~= self@.push(range.layer_of()));
        r
    }

    /// Adds the layers that `layers` becomes (for an area of chunks: the range
    /// of its x, then the range of its y).
    pub fn with_layers<L: IntoTopicLayers>(self, layers: L) -> (r: Self)
        ensures
            r@ == self@ + layers.layers_of(),
    {
        let ghost extra = layers.layers_of();
        let mut v = self.0;
        let mut more = layers.into_layers();
        v.append(&mut more);
        let r = TopicPattern(v);
        assert(r@ =~= self@ + extra);
        r
    }

    /// Adds the fixed head byte of `namespace` in `security_domain`.
    pub fn with_head(self, namespace: Namespace, security_domain: SecurityDomain) -> (r: Self)
        ensures
            r@ == self@.push(LayerView::Fixed(seq![head_byte(security_domain, namespace)])),
    {
        let mut bytes: Vec<u8> = Vec::new();
        bytes.push(<Topic as TopicDefaults>::security_namespace_as_u8(security_domain, namespace));
        self.with_fixed(bytes)
    }
}

/// Reading `count` layers back from their encodings gives the layers and
/// leaves the bytes that followed.
proof fn lemma_layers_round_trip(ls: Seq<LayerView>, rest: Seq<u8>)
    requires
        forall|i: int| 0 <= i < ls.len() ==> layer_sendable(#[trigger] ls[i]),
    ensures
        layers_readable(layers_encoding(ls) + rest, ls.len()),
        layers_read(layers_encoding(ls) + rest, ls.len()) == (Ok::<Seq<LayerView>, ProtocolError>(ls), rest),
    decreases ls.len(),
{
    if ls.len() > 0 {
        let tail = ls.drop_first();
        lemma_layers_encoding_front(ls);
        assert(forall|i: int| 0 <= i < tail.len() ==> tail[i] == ls[i + 1]);
        lemma_layers_round_trip(tail, rest);
        crate::broker_protocol::topic_layers::lemma_layer_round_trip(
            ls[0],
            layers_encoding(tail) + rest,
        );
        let s = layers_encoding(ls) + rest;
        assert(s =~= layer_encoding(ls[0]) + (layers_encoding(tail) + rest));
        assert(layer_read(s) == (Ok::<LayerView, ProtocolError>(ls[0]), layers_encoding(tail) + rest));
        assert(((ls.len() - 1) as nat) == tail.len());
        assert(seq![ls[0]] + tail =~= ls);
        assert(layers_read(s, ls.len()) == (Ok::<Seq<LayerView>, ProtocolError>(seq![ls[0]] + tail), rest));
    } else {
        assert(layers_encoding(ls) + rest =~= rest);
        assert(ls =~= Seq::<LayerView>::empty());
    }
}

/// The encoding of layers starts with the encoding of the first layer.
proof fn lemma_layers_encoding_front(ls: Seq<LayerView>)
    requires
        ls.len() > 0,
    ensures
        layers_encoding(ls) == layer_encoding(ls[0]) + layers_encoding(ls.drop_first()),
    decreases ls.len(),
{
    if ls.len() == 1 {
        assert(ls.drop_first() =~= Seq::<LayerView>::empty());
        assert(ls.drop_last() =~= Seq::<LayerView>::empty());
        assert(layers_encoding(ls.drop_last()) == Seq::<u8>::empty());
        assert(layers_encoding(ls.drop_first()) == Seq::<u8>::empty());
        assert(ls.last() == ls[0]);
        assert(layers_encoding(ls) =~= layer_encoding(ls[0]));
    } else {
        lemma_layers_encoding_front(ls.drop_last());
        assert(ls.drop_last().drop_first() =~= ls.drop_first().drop_last());
        assert(ls.drop_last()[0] == ls[0]);
        assert(ls.drop_first().last() == ls.last());
        assert(layers_encoding(ls) =~= layer_encoding(ls[0]) + layers_encoding(ls.drop_first()));
    }
}

/// Reading back the encoding of a sendable pattern gives the pattern and
/// leaves exactly the bytes that followed it.
pub proof fn lemma_pattern_round_trip(ls: Seq<LayerView>, rest: Seq<u8>)
    requires
        pattern_sendable(ls),
    ensures
        pattern_readable(pattern_encoding(ls) + rest),
        pattern_read(pattern_encoding(ls) + rest) == (Ok::<Seq<LayerView>, ProtocolError>(ls), rest),
{
    let s = pattern_encoding(ls) + rest;
    assert(s.skip(1) =~= layers_encoding(ls) + rest);
    assert((ls.len() as u8) as nat == ls.len());
    lemma_layers_round_trip(ls, rest);
}

} // verus!
