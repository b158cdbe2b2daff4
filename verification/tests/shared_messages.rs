use bytes::{Bytes, BytesMut};
use mmo_replication::shared_replication::broker_protocol::{
    ProtocolError as FirstProtocolError, ProtocolTag as FirstProtocolTag,
};
use mmo_replication::shared_replication::broker_topics::{
    Namespace as Namespace32, SecurityDomain as SecurityDomain32, Topic as Topic32,
    TopicBuilder as TopicBuilder32, TopicInterface as TopicInterface32,
};
use mmo_replication::shared_replication::msg_client_server::{
    ClientDisconnectedMsg, ClientHelloMsg, ClientWelcomeMsg, PlayerInput, PlayerInputMsg,
};
use mmo_replication::shared_replication::msg_dgs::{
    Heartbeat, HeartbeatMessage, SpawnClientMsg, TakeChunkMessage,
};
use mmo_replication::shared_replication::msg_game_payload::{
    GameMessage, GameMessageHeaders, GamePayload,
};
use mmo_replication::shared_replication::msg_servers::{ServerHelloMSG, ServerType};
use mmo_replication::shared_replication::servers::ServerType as SwappedServerType;

#[test]
fn player_input_bits() {
    let mut input = PlayerInput::default();
    input.set_up(true);
    input.set_right(true);
    assert_eq!(input.0, 0b1001);
    assert!(input.is_up());
    assert!(!input.is_down());
    assert!(!input.is_left());
    assert!(input.is_right());
    input.set_up(false);
    input.set_left(true);
    assert_eq!(input.0, 0b1100);
    input.set_bit(true, 15);
    assert!(input.get_bit(15));
    assert_eq!(input.0, 0x800c);
    input.set_down(true);
    assert_eq!(input.to_u8_slice(), [0x0e, 0x80]);
}

#[test]
fn player_input_from_two_bytes_only() {
    assert_eq!(PlayerInput::make_from_u8_slice(&[0x34, 0x12]), Some(PlayerInput(0x1234)));
    assert_eq!(PlayerInput::make_from_u8_slice(&[1]), None);
    assert_eq!(PlayerInput::make_from_u8_slice(&[1, 2, 3]), None);
}

#[test]
fn player_input_message_round_trip_and_length_check() {
    let m = PlayerInputMsg { client_id: 0x0a0b0c0d, input_data: PlayerInput(0x0102) };
    let mut bytes = m.serialize();
    assert_eq!(&bytes[..], &[0x0d, 0x0c, 0x0b, 0x0a, 0x02, 0x01]);
    assert_eq!(PlayerInputMsg::deserialize(&mut bytes).unwrap(), m);
    let mut short = Bytes::from_static(&[1, 2, 3]);
    assert!(PlayerInputMsg::deserialize(&mut short).is_err());
    assert_eq!(PlayerInputMsg::header(), GameMessageHeaders::ClientInput);
}

#[test]
fn disconnect_and_welcome_messages() {
    let mut d = ClientDisconnectedMsg { client_id: 9 }.serialize();
    assert_eq!(ClientDisconnectedMsg::deserialize(&mut d).unwrap().client_id, 9);
    let mut bad = Bytes::from_static(&[1, 2, 3, 4, 5]);
    assert!(ClientDisconnectedMsg::deserialize(&mut bad).is_err());
    let w = ClientWelcomeMsg { client_id: 3, chunk_x: -2, chunk_y: 7 };
    let mut wb = w.serialize();
    assert_eq!(wb.len(), 12);
    assert_eq!(ClientWelcomeMsg::deserialize(&mut wb).unwrap(), w);
}

#[test]
fn hello_round_trip_and_refusals() {
    let m = ClientHelloMsg { pseudo: "Zoé".to_string() };
    let mut bytes = m.serialize();
    assert_eq!(&bytes[..2], &[4, 0]);
    assert_eq!(ClientHelloMsg::deserialize(&mut bytes).unwrap().pseudo, "Zoé");
    let mut short = Bytes::from_static(&[5]);
    assert!(ClientHelloMsg::deserialize(&mut short).is_err());
    let mut cut = Bytes::from_static(&[5, 0, b'a']);
    assert!(ClientHelloMsg::deserialize(&mut cut).is_err());
    let mut not_utf8 = Bytes::from_static(&[2, 0, 0xff, 0xfe]);
    assert!(ClientHelloMsg::deserialize(&mut not_utf8).is_err());
}

#[test]
fn take_chunk_consumes_eight_bytes() {
    let m = TakeChunkMessage { chunk_x: -1, chunk_y: 2 };
    let mut bytes = BytesMut::new();
    bytes.extend_from_slice(&m.serialize());
    bytes.extend_from_slice(&[9]);
    let mut data = bytes.freeze();
    assert_eq!(TakeChunkMessage::deserialize(&mut data).unwrap(), m);
    assert_eq!(&data[..], &[9]);
    let mut short = Bytes::from_static(&[0, 0, 0]);
    assert!(TakeChunkMessage::deserialize(&mut short).is_err());
}

#[test]
fn heartbeat_frames_its_json() {
    let framed = HeartbeatMessage::frame(Some(b"{\"a\":1}"));
    assert_eq!(&framed[..2], &[7, 0]);
    let mut data = framed.clone();
    let json = HeartbeatMessage::unframe(&mut data).unwrap();
    assert_eq!(&json[..], b"{\"a\":1}");
    assert!(data.is_empty());
    assert!(HeartbeatMessage::frame(None).is_empty());
    let mut cut = Bytes::from_static(&[9, 0, b'{']);
    assert!(HeartbeatMessage::unframe(&mut cut).is_err());
    let mut tiny = Bytes::from_static(&[1]);
    assert!(HeartbeatMessage::unframe(&mut tiny).is_err());
    let h = Heartbeat { id: "dgs".to_string(), zone: "eu".to_string(), player_count: 1, max_players: 10 };
    let m = HeartbeatMessage { heartbeat: h };
    assert_eq!(m.heartbeat.max_players, 10);
    assert_eq!(HeartbeatMessage::header(), GameMessageHeaders::Heartbeat);
}

#[test]
fn spawn_client_round_trip_and_refusals() {
    let m = SpawnClientMsg { client_id: 4, pseudo: "bob".to_string(), chunk_x: 1, chunk_y: -1 };
    let bytes = m.serialize();
    assert_eq!(bytes.len(), 13 + 3);
    assert_eq!(bytes[12], 3);
    let mut data = bytes.clone();
    let back = SpawnClientMsg::deserialize(&mut data).unwrap();
    assert_eq!((back.client_id, back.chunk_x, back.chunk_y), (4, 1, -1));
    assert_eq!(back.pseudo, "bob");
    assert!(data.is_empty());
    let mut short = Bytes::from_static(&[0; 12]);
    assert!(SpawnClientMsg::deserialize(&mut short).is_err());
    let mut cut = bytes.slice(..14);
    assert!(SpawnClientMsg::deserialize(&mut cut).is_err());
}

#[test]
fn server_hello_and_types() {
    let m = ServerHelloMSG { server_type: ServerType::Spatial, id: 0x8000_0002 };
    let mut bytes = m.serialize();
    assert_eq!(&bytes[..], &[3, 2, 0, 0, 0x80]);
    assert_eq!(ServerHelloMSG::deserialize(&mut bytes).unwrap(), m);
    let mut stranger = Bytes::from_static(&[9, 0, 0, 0, 0]);
    assert!(ServerHelloMSG::deserialize(&mut stranger).is_err());
    let mut short = Bytes::from_static(&[2, 0, 0]);
    assert!(ServerHelloMSG::deserialize(&mut short).is_err());
    assert_eq!(ServerType::from(0x02), ServerType::Server);
    assert_eq!(ServerType::from(0x07), ServerType::NotAFriend);
    assert_eq!(SwappedServerType::from(0x01), SwappedServerType::Server);
    assert_eq!(SwappedServerType::from(0x02), SwappedServerType::Client);
}

#[test]
fn headers_from_bytes() {
    assert_eq!(GameMessageHeaders::from(0x0B), GameMessageHeaders::Heartbeat);
    assert_eq!(GameMessageHeaders::from(0x10), GameMessageHeaders::TakeChunk);
    assert_eq!(GameMessageHeaders::from(0x0A), GameMessageHeaders::DiscardedMessageBecauseYouKnow);
    assert_eq!(GameMessageHeaders::ClientHello.as_u8(), 0x06);
}

#[test]
fn payload_extraction_checks_the_header() {
    let mut payload = GamePayload {
        header: GameMessageHeaders::ClientDisconnect,
        data: ClientDisconnectedMsg { client_id: 5 }.serialize(),
    };
    assert!(payload.extract::<TakeChunkMessage>().is_err());
    assert_eq!(payload.data.len(), 4);
    assert_eq!(payload.extract::<ClientDisconnectedMsg>().unwrap().client_id, 5);
    let net = GamePayload { header: GameMessageHeaders::Snapshot, data: Bytes::from_static(&[1, 2]) }
        .to_network_bytes();
    assert_eq!(&net[..], &[0x04, 1, 2]);
}

#[test]
fn first_protocol_tags() {
    assert!(matches!(FirstProtocolTag::try_from(0x07), Ok(FirstProtocolTag::ClientBrokerHello)));
    assert!(matches!(FirstProtocolTag::try_from(0x08), Err(FirstProtocolError::UnknownTag(8))));
}

#[test]
fn wide_topics() {
    let t: Topic32 = TopicBuilder32::new(SecurityDomain32::PrivateRW, Namespace32::ServerLine)
        .append_entity(0x01020304)
        .append_lod(0x0506)
        .append_grid(-1, 2)
        .append(&[7; 40])
        .build();
    assert_eq!(&t[..2], &[3, 0x32]);
    assert_eq!(&t[2..6], &[4, 3, 2, 1]);
    assert_eq!(&t[6..8], &[6, 5]);
    assert_eq!(&t[8..12], &[0xff, 0xff, 0xff, 0xff]);
    assert_eq!(&t[12..16], &[2, 0, 0, 0]);
    assert!(t[16..].iter().all(|b| *b == 7));
    assert_eq!(t.security_domain(), Some(SecurityDomain32::PrivateRW));
    assert_eq!(t.namespace(), Some(Namespace32::ServerLine));
    let client_line = TopicBuilder32::new(SecurityDomain32::PublicReadPrivateWrite, Namespace32::ClientLine).build();
    assert_eq!(client_line.namespace(), None);
    let zero: Topic32 = <Topic32 as TopicInterface32>::default();
    assert_eq!(zero, [0u8; 32]);
}
