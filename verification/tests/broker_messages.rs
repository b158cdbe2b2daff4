use bytes::{Bytes, BytesMut};
use mmo_replication::shared_replication::broker_message::{
    BrokerMessage, NodeIdMetaData, ProtocolError, ProtocolTag, FIRST_CLIENT_ID, FIRST_SERVER_ID,
    REFERENCE_TO_SENDER,
};

fn topic(b: u8) -> [u8; 16] {
    let mut t = [0u8; 16];
    t[0] = b;
    t[15] = b;
    t
}

#[test]
fn subscribe_is_tag_id_topic() {
    let m = BrokerMessage::Subscribe { client_id: 0x0102_0304, topic: topic(9) };
    let bytes = m.serialize();
    assert_eq!(bytes.len(), 21);
    assert_eq!(&bytes[..5], &[0x01, 0x04, 0x03, 0x02, 0x01]);
    assert_eq!(&bytes[5..], &topic(9));
}

#[test]
fn every_message_reads_back() {
    let messages = vec![
        BrokerMessage::Subscribe { client_id: 7, topic: topic(1) },
        BrokerMessage::Unsubscribe { client_id: 8, topic: topic(2) },
        BrokerMessage::Publish { topic: topic(3), payload: Bytes::from_static(b"hello") },
        BrokerMessage::Broadcast { payload: Bytes::from_static(b"all") },
        BrokerMessage::BroadCastFrom { client_id: 42, payload: Bytes::from_static(b"from") },
        BrokerMessage::AuthorizeClient { client_id: 5 },
        BrokerMessage::KickNode { client_id: 0x8000_0001 },
        BrokerMessage::Welcome { node_id: 3 },
    ];
    for m in messages {
        let bytes = m.serialize();
        let back = BrokerMessage::deserialize(bytes.clone()).expect("reads back");
        assert_eq!(back.serialize(), bytes);
        assert_eq!(back.tag(), m.tag());
    }
}

#[test]
fn publish_payload_is_length_prefixed() {
    let m = BrokerMessage::Publish { topic: topic(3), payload: Bytes::from_static(b"abc") };
    let bytes = m.serialize();
    assert_eq!(bytes[0], 0x03);
    assert_eq!(&bytes[17..19], &[3, 0]);
    assert_eq!(&bytes[19..], b"abc");
    match BrokerMessage::deserialize(bytes).unwrap() {
        BrokerMessage::Publish { topic: t, payload } => {
            assert_eq!(t, topic(3));
            assert_eq!(&payload[..], b"abc");
        }
        other => panic!("unexpected {:?}", other),
    }
}

#[test]
fn empty_buffer_is_too_short() {
    match BrokerMessage::deserialize(Bytes::new()) {
        Err(ProtocolError::BufferTooShort { expected, actual, .. }) => {
            assert_eq!(expected, 1);
            assert_eq!(actual, 0);
        }
        other => panic!("unexpected {:?}", other),
    }
}

#[test]
fn unknown_tag_is_refused() {
    match BrokerMessage::deserialize(Bytes::from(vec![0x42u8, 0, 0, 0, 0])) {
        Err(ProtocolError::UnknownTag(0x42)) => {}
        other => panic!("unexpected {:?}", other),
    }
}

#[test]
fn truncated_message_is_too_short() {
    match BrokerMessage::deserialize(Bytes::from(vec![0x01u8, 1, 2])) {
        Err(ProtocolError::BufferTooShort { expected, actual, .. }) => {
            assert_eq!(expected, 21);
            assert_eq!(actual, 3);
        }
        other => panic!("unexpected {:?}", other),
    }
    let mut cut = BrokerMessage::Broadcast { payload: Bytes::from_static(b"abcdef") }
        .serialize()
        .to_vec();
    cut.truncate(5);
    assert!(matches!(
        BrokerMessage::deserialize(Bytes::from(cut)),
        Err(ProtocolError::BufferTooShort { .. })
    ));
}

#[test]
fn tags_decode_and_encode() {
    assert!(matches!(ProtocolTag::try_from(0x08), Ok(ProtocolTag::Welcome)));
    assert!(matches!(ProtocolTag::try_from(0x09), Err(ProtocolError::UnknownTag(0x09))));
    assert_eq!(ProtocolTag::KickClient.as_u8(), 0x07);
    assert_eq!(BrokerMessage::min_len(ProtocolTag::Publish), 19);
}

#[test]
fn peeking_reads_tag_and_client() {
    let bytes = BrokerMessage::BroadCastFrom { client_id: 77, payload: Bytes::from_static(b"x") }
        .serialize();
    assert_eq!(BrokerMessage::peek_inner_tag(&bytes), Some(ProtocolTag::BroadcastFromClient));
    assert_eq!(BrokerMessage::peek_inner_client_id(&bytes), Some(77));
    assert_eq!(BrokerMessage::peek_inner_tag(&Bytes::new()), None);
    assert_eq!(BrokerMessage::peek_inner_client_id(&Bytes::from_static(&[1, 2])), None);
}

#[test]
fn writers_append_messages() {
    let mut buf = BytesMut::new();
    BrokerMessage::write_subscribe_to(&mut buf, 3, &topic(4));
    BrokerMessage::write_unsubscribe_from(&mut buf, 3, &topic(4));
    BrokerMessage::write_publish_headers(&mut buf, &topic(5));
    assert_eq!(buf.len(), 21 + 21 + 17);
    assert_eq!(buf[0], 0x01);
    assert_eq!(buf[21], 0x02);
    assert_eq!(buf[42], 0x03);
}

#[test]
fn node_ids_tell_clients_from_servers() {
    assert!(FIRST_CLIENT_ID.is_client());
    assert!(!FIRST_CLIENT_ID.is_server());
    assert!(FIRST_SERVER_ID.is_server());
    assert!(!FIRST_SERVER_ID.is_client());
    assert!(!REFERENCE_TO_SENDER.is_client());
    assert!(!REFERENCE_TO_SENDER.is_server());
}
