use bytes::{Bytes, BytesMut};
use mmo_replication::core_types::chunks::{GameChunk, GameChunkAera};
use mmo_replication::game_message::core_types::SerializedGameChunkAera;
use mmo_replication::game_message::msg_client_server::{ClientHelloMsg, InputBuffer, PlayerInput};
use mmo_replication::game_message::msg_dgs::SpawnClientMsg;
use mmo_replication::game_message::msg_entities::EntityType;
use mmo_replication::game_message::msg_servers::{ServerType, SpawnServerMSG};
use mmo_replication::game_message::{
    GameMessage, GameMessageHeaders, GamePayload, NetRead, NetWrite, NetWriteTo,
};

#[test]
fn chunk_on_the_wire() {
    let c = GameChunk { x: -2, y: 300 };
    let mut bytes = c.serialize();
    assert_eq!(&bytes[..], &[0xfe, 0xff, 0x2c, 0x01]);
    assert_eq!(GameChunk::deserialize(&mut bytes).unwrap(), c);
    let mut short = Bytes::from_static(&[1, 2, 3]);
    assert!(GameChunk::deserialize(&mut short).is_err());
}

#[test]
fn serialized_area_converts_both_ways() {
    let a = GameChunkAera { x_min: -1, x_max: 3, y_min: 0, y_max: 2 };
    let s: SerializedGameChunkAera = a.into();
    let back: GameChunkAera = s.into();
    assert_eq!(back, a);
}

#[test]
fn hello_consumes_its_bytes() {
    let m = ClientHelloMsg { pseudo: "ana".to_string() };
    let mut buf = BytesMut::new();
    m.write_to(&mut buf);
    buf.extend_from_slice(&[42]);
    let mut data = buf.freeze();
    assert_eq!(ClientHelloMsg::deserialize(&mut data).unwrap().pseudo, "ana");
    assert_eq!(&data[..], &[42]);
    assert_eq!(ClientHelloMsg::header(), GameMessageHeaders::ClientHello);
    let mut bad = Bytes::from_static(&[1, 0, 0xc3]);
    assert!(ClientHelloMsg::deserialize(&mut bad).is_err());
}

#[test]
fn spawn_order_carries_the_chunk() {
    let m = SpawnClientMsg { client_id: 12, pseudo: "eve".to_string(), chunk: GameChunk { x: 1, y: 2 } };
    let bytes = m.serialize();
    assert_eq!(&bytes[..], &[12, 0, 0, 0, 1, 0, 2, 0, 3, b'e', b'v', b'e']);
    let mut data = bytes.clone();
    let back = SpawnClientMsg::deserialize(&mut data).unwrap();
    assert_eq!(back.client_id, 12);
    assert_eq!(back.chunk, GameChunk { x: 1, y: 2 });
    assert_eq!(back.pseudo, "eve");
    let mut short = Bytes::from_static(&[1, 2, 3]);
    assert!(SpawnClientMsg::deserialize(&mut short).is_err());
    let mut cut = bytes.slice(..10);
    assert!(SpawnClientMsg::deserialize(&mut cut).is_err());
}

#[test]
fn spawn_server_is_one_byte() {
    let m = SpawnServerMSG { server_count: 3 };
    let mut bytes = m.serialize();
    assert_eq!(&bytes[..], &[3]);
    assert_eq!(SpawnServerMSG::deserialize(&mut bytes).unwrap(), m);
    assert_eq!(SpawnServerMSG::header(), GameMessageHeaders::SpawnServer);
}

#[test]
fn publication_of_a_game_message() {
    let topic = [0x11u8; 16];
    let mut buf = BytesMut::new();
    GamePayload::write_publish_to(&mut buf, &topic, &SpawnServerMSG { server_count: 5 });
    assert_eq!(buf[0], 0x03);
    assert_eq!(&buf[1..17], &topic);
    assert_eq!(&buf[17..19], &[2, 0]);
    assert_eq!(&buf[19..], &[0x0C, 5]);
}

#[test]
fn payload_extracts_by_header() {
    let mut p = GamePayload { header: GameMessageHeaders::SpawnServer, data: Bytes::from_static(&[7]) };
    assert!(p.extract::<ClientHelloMsg>().is_err());
    assert_eq!(p.extract::<SpawnServerMSG>().unwrap().server_count, 7);
}

#[test]
fn headers_and_kinds() {
    assert_eq!(GameMessageHeaders::from(0x0C), GameMessageHeaders::SpawnServer);
    assert_eq!(GameMessageHeaders::from(0x10), GameMessageHeaders::ChunkHandOff);
    assert_eq!(GameMessageHeaders::from(0x00), GameMessageHeaders::DiscardedMessageBecauseYouKnow);
    assert_eq!(ServerType::from(0x03), ServerType::Spatial);
    assert_eq!(ServerType::from(0x00), ServerType::NotAFriend);
    assert!(EntityType::Turret.is_static());
    assert!(EntityType::Wall.is_static());
    assert!(!EntityType::Player.is_static());
    assert!(!EntityType::Projectile.is_static());
}

#[test]
fn input_buffer_keeps_the_latest() {
    let mut buffer = InputBuffer::new(2);
    assert_eq!(buffer.get_last_input(), None);
    let up = PlayerInput { up: true, ..PlayerInput::default() };
    let down = PlayerInput { down: true, ..PlayerInput::default() };
    buffer.push(up, 1);
    buffer.push(down, 2);
    buffer.push(up, 3);
    assert_eq!(buffer.history.len(), 2);
    assert_eq!(buffer.history[0], (2, down));
    assert_eq!(buffer.get_last_input(), Some((3, up)));
    let mut other = InputBuffer::new(0);
    other.push(down, 9);
    other.push(up, 10);
    assert_eq!(other.history.len(), 1);
    buffer.recv_other(other);
    assert_eq!(buffer.max_size, 0);
    assert_eq!(buffer.get_last_input(), Some((10, up)));
}
