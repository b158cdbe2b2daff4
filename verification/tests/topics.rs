use bytes::{Bytes, BytesMut};
use mmo_replication::broker_protocol::topic_layers::TopicLayer;
use mmo_replication::broker_protocol::topic_patterns::TopicPattern;
use mmo_replication::broker_protocol::topics::{
    Namespace, SecurityDomain, Topic, TopicBuilder, TopicDefaults, TopicInterface,
};
use mmo_replication::core_types::chunks::{GameChunk, GameChunkAera};

#[test]
pub fn test_generic_unpacker() {
    let area = GameChunkAera { x_min: 0, x_max: 2, y_min: 0, y_max: 2 };
    let first_layer =
        Topic::security_namespace_as_u8(SecurityDomain::PublicReadPrivateWrite, Namespace::Chunk);

    let pattern_area = TopicPattern::new()
        .with_fixed(vec![first_layer])
        .with_layers(area)
        .with_range(0u8..=2u8)
        .with_fixed(vec![1, 2, 3, 4, 5, 6, 7, 8, 9]);

    let mut topics = Vec::new();
    pattern_area.unpack_into(&mut topics);
    for topic in &topics {
        println!("{:?}", topic);
    }
}

#[test]
fn unpacker_lists_every_combination_in_order() {
    let area = GameChunkAera { x_min: 0, x_max: 2, y_min: 0, y_max: 2 };
    let head =
        Topic::security_namespace_as_u8(SecurityDomain::PublicReadPrivateWrite, Namespace::Chunk);
    let pattern = TopicPattern::new()
        .with_fixed(vec![head])
        .with_layers(area)
        .with_range(0u8..=2u8)
        .with_fixed(vec![1, 2, 3, 4, 5, 6, 7, 8, 9]);
    let mut topics = Vec::new();
    pattern.unpack_into(&mut topics);
    assert_eq!(topics.len(), 27);
    assert_eq!(topics[0], [head, 0, 0, 0, 0, 0, 1, 2, 3, 4, 5, 6, 7, 8, 9, 0]);
    assert_eq!(topics[1], [head, 0, 0, 0, 0, 1, 1, 2, 3, 4, 5, 6, 7, 8, 9, 0]);
    assert_eq!(topics[26], [head, 2, 0, 2, 0, 2, 1, 2, 3, 4, 5, 6, 7, 8, 9, 0]);
}

#[test]
fn unpacker_appends_to_what_is_there() {
    let pattern = TopicPattern::new().with_list(vec![7, 8]);
    let mut topics = vec![[1u8; 16]];
    pattern.unpack_into(&mut topics);
    assert_eq!(topics.len(), 3);
    assert_eq!(topics[0], [1u8; 16]);
    let mut expected = [0u8; 16];
    expected[0] = 7;
    assert_eq!(topics[1], expected);
    expected[0] = 8;
    assert_eq!(topics[2], expected);
}

#[test]
fn unpacker_skips_topics_longer_than_sixteen_bytes() {
    let pattern = TopicPattern::new().with_fixed(vec![0u8; 15]).with_range(0u16..=1u16);
    let mut topics = Vec::new();
    pattern.unpack_into(&mut topics);
    assert!(topics.is_empty());
}

#[test]
fn head_byte_packs_domain_and_namespace() {
    assert_eq!(
        Topic::security_namespace_as_u8(SecurityDomain::PrivateRW, Namespace::NodeLine),
        0xf2
    );
    assert_eq!(
        Topic::security_namespace_as_u8(
            SecurityDomain::PublicReadPrivateWrite,
            Namespace::ServerConnection
        ),
        0x44
    );
}

#[test]
fn builder_reads_back_domain_and_namespace() {
    let topic = TopicBuilder::new(SecurityDomain::PrivateReadPublicWrite, Namespace::ClientAuth)
        .build();
    assert_eq!(topic.security_domain(), Some(SecurityDomain::PrivateReadPublicWrite));
    assert_eq!(topic.namespace(), Some(Namespace::ClientAuth));
    let default_topic = Topic::default_topic();
    assert_eq!(default_topic.security_domain(), None);
    assert_eq!(default_topic.namespace(), None);
    assert_eq!(Topic::topic_length(), 16);
}

#[test]
fn builder_appends_ids_and_chunks() {
    let topic = TopicBuilder::new(SecurityDomain::PrivateRW, Namespace::NodeLine)
        .append_id(0x0403_0201)
        .append_chunk(&GameChunk { x: -1, y: 2 })
        .build();
    assert_eq!(topic, [0xf2, 1, 2, 3, 4, 0xff, 0xff, 2, 0, 0, 0, 0, 0, 0, 0, 0]);
}

#[test]
fn builder_changes_head_only() {
    let b = TopicBuilder::new(SecurityDomain::PrivateReadPublicWrite, Namespace::NodeLine)
        .append_id(5);
    let changed = b.change_security_domain(SecurityDomain::PrivateRW).build();
    assert_eq!(changed[0], 0xf2);
    assert_eq!(&changed[1..], &b.build()[1..]);
    let renamed = b.change_namespace(Namespace::Chunk).build();
    assert_eq!(renamed.namespace(), Some(Namespace::Chunk));
    assert_eq!(renamed.security_domain(), Some(SecurityDomain::PrivateReadPublicWrite));
    assert_eq!(b.written(), 5);
}

#[test]
fn builder_append_writes_at_cursor() {
    let topic = TopicBuilder::empty().append(&[9, 8, 7]).append(&[6]).build();
    assert_eq!(&topic[..5], &[9, 8, 7, 6, 0]);
}

#[test]
fn domain_and_namespace_codes_are_refused_when_unknown() {
    assert_eq!(SecurityDomain::try_from(0x03), Ok(SecurityDomain::PrivateRW));
    assert!(SecurityDomain::try_from(0x00).is_err());
    assert_eq!(Namespace::try_from(0x05), Ok(Namespace::ClientAuth));
    assert!(Namespace::try_from(0x3f).is_err());
    assert_eq!(SecurityDomain::PrivateRW.as_u8(), 3);
    assert_eq!(Namespace::NodeLine.as_u8(), 0x32);
}

#[test]
fn pattern_round_trips_through_bytes() {
    let pattern = TopicPattern::new()
        .with_head(Namespace::Chunk, SecurityDomain::PublicReadPrivateWrite)
        .with_range(-2i16..=3i16)
        .with_list(vec![1, 2, 3])
        .with_range(10u32..=12u32);
    let mut buf = BytesMut::new();
    pattern.serialize(&mut buf);
    let mut bytes: Bytes = buf.freeze();
    let back = TopicPattern::deserialize(&mut bytes).expect("a written pattern reads back");
    let mut a = Vec::new();
    let mut b = Vec::new();
    pattern.unpack_into(&mut a);
    back.unpack_into(&mut b);
    assert_eq!(a, b);
    assert_eq!(a.len(), 6 * 3 * 3);
    assert!(bytes.is_empty());
}

#[test]
fn layer_round_trips_and_refuses_unknown_tags() {
    let layer = TopicLayer::RangeI8(-3, 4);
    let mut buf = BytesMut::new();
    layer.serialize(&mut buf);
    let mut bytes = buf.freeze();
    match TopicLayer::deserialize(&mut bytes) {
        Ok(TopicLayer::RangeI8(a, b)) => assert_eq!((a, b), (-3, 4)),
        other => panic!("unexpected {:?}", other),
    }
    let mut bad = Bytes::from(vec![0xEEu8, 1, 2]);
    assert!(TopicLayer::deserialize(&mut bad).is_err());
}

#[test]
fn appending_a_chunk_writes_its_two_coordinates() {
    let b = TopicBuilder::new(SecurityDomain::PrivateRW, Namespace::Chunk);
    let t = b.append_chunk(&GameChunk { x: 1, y: -1 }).build();
    assert_eq!(&t[1..5], &[1, 0, 0xFF, 0xFF]);
    let u = b.append(&1i16.to_le_bytes()).append(&(-1i16).to_le_bytes()).build();
    assert_eq!(t, u);
    let v = TopicBuilder::new(SecurityDomain::PrivateRW, Namespace::Chunk).append_id(9).change_namespace(Namespace::NodeLine).build();
    let w = TopicBuilder::new(SecurityDomain::PrivateRW, Namespace::Chunk).append_id(9).build();
    assert_eq!(&v[1..], &w[1..]);
    assert_eq!(v.namespace(), Some(Namespace::NodeLine));
    assert_eq!(v.security_domain(), Some(SecurityDomain::PrivateRW));
}
