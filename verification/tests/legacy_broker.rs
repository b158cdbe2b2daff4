use bytes::Bytes;
use mmo_replication::broker::broker_core::StreamInfo;
use mmo_replication::legacy_broker::broker_state::{BrokerState, ClientIdGenerator, ConnectionOwner};
use mmo_replication::legacy_broker::broker_tick::{BrokerMessageHeaders, LegacyAction, LegacyEvent};

const SHARD: u128 = 10;
const CLIENT: u128 = 20;
const ORCH: u128 = 30;

fn stream() -> StreamInfo {
    StreamInfo { stream_id: 0, reliable: true }
}

fn packet(bytes: Vec<u8>, connection: u128) -> LegacyEvent {
    LegacyEvent::Message { connection, stream: stream(), data: Bytes::from(bytes) }
}

fn sent(a: &LegacyAction) -> (u128, Vec<u8>) {
    match a {
        LegacyAction::Send { connection, data, .. } => (*connection, data.to_vec()),
        other => panic!("unexpected {:?}", other),
    }
}

#[test]
fn ids_start_at_zero() {
    let mut g = ClientIdGenerator::new();
    assert_eq!(g.next(), 0);
    assert_eq!(g.next(), 1);
    assert_eq!(g.next(), 2);
}

#[test]
fn friends_and_trust() {
    let mut b = BrokerState::new();
    let out = b.broker_tick(packet(vec![0x0F, 0x02], SHARD), true);
    assert!(!out.discarded);
    assert!(b.is_trusted(&SHARD));
    assert_eq!(b.get_server_by_co(&SHARD), Some(&[0u8; 32]));
    assert!(b.broker_tick(packet(vec![0x0F, 0x04], ORCH), false).discarded);
    b.broker_tick(packet(vec![0x0F, 0x04], ORCH), true);
    assert_eq!(*b.get_orchestrator_co(), Some(ORCH));
    assert!(!b.is_trusted(&ORCH));
    assert!(b.broker_tick(packet(vec![0x0F, 0x09], ORCH), true).discarded);
    b.add_spatial_server(40);
    b.add_spatial_server(41);
    assert_eq!(*b.get_spatial_server(), Some(40));
    assert!(b.is_trusted(&40));
}

#[test]
fn client_hello_welcomes_then_spawns_on_a_shard() {
    let mut b = BrokerState::new();
    b.broker_tick(packet(vec![0x0F, 0x02], SHARD), true);
    let out = b.broker_tick(packet(vec![0x06, 3, b'b', b'o', b'b'], CLIENT), false);
    assert!(!out.discarded);
    assert_eq!(out.actions.len(), 1);
    assert_eq!(sent(&out.actions[0]), (CLIENT, vec![0x08, 0, 0, 0, 0]));
    let pending = out.pending.expect("a spawn is pending");
    assert_eq!(pending.client_id, 0);
    let spawn = b.after_welcome(pending);
    assert_eq!(spawn.len(), 1);
    assert_eq!(sent(&spawn[0]), (SHARD, vec![0x07, 0, 0, 0, 0, 3, b'b', b'o', b'b']));
    assert_eq!(b.get_client_by_co(&CLIENT), Some(&0));
    assert_eq!(b.get_client_authoritative_location(0), Some(&[0u8; 32]));
    assert_eq!(b.get_subscribers(&[0u8; 32]), Some(&vec![CLIENT]));
}

#[test]
fn hello_without_shard_spawns_nothing() {
    let mut b = BrokerState::new();
    let out = b.broker_tick(packet(vec![0x06, 0], CLIENT), false);
    assert!(b.after_welcome(out.pending.unwrap()).is_empty());
    assert!(b.broker_tick(packet(vec![0x06, 4, b'a'], CLIENT), false).discarded);
}

#[test]
fn client_input_goes_to_its_shard_only_from_itself() {
    let mut b = BrokerState::new();
    b.broker_tick(packet(vec![0x0F, 0x02], SHARD), true);
    let out = b.broker_tick(packet(vec![0x06, 0], CLIENT), false);
    b.after_welcome(out.pending.unwrap());
    let input = vec![0x05, 0, 0, 0, 0, 0xAA];
    let out = b.broker_tick(packet(input.clone(), CLIENT), false);
    assert_eq!(out.actions.len(), 1);
    assert_eq!(sent(&out.actions[0]), (SHARD, input));
    let forged = b.broker_tick(packet(vec![0x05, 1, 0, 0, 0], CLIENT), false);
    assert!(forged.discarded);
    assert!(forged.actions.is_empty());
}

#[test]
fn clients_subscribe_only_for_themselves() {
    let mut b = BrokerState::new();
    let out = b.broker_tick(packet(vec![0x06, 0], CLIENT), false);
    assert_eq!(out.pending.unwrap().client_id, 0);
    let mut sub = vec![0x01, 0, 0, 0, 0];
    sub.extend_from_slice(&[5u8; 32]);
    assert!(!b.broker_tick(packet(sub.clone(), CLIENT), false).discarded);
    assert_eq!(b.get_subscriptions(&CLIENT), Some(&vec![[5u8; 32]]));
    let mut other = vec![0x01, 7, 0, 0, 0];
    other.extend_from_slice(&[6u8; 32]);
    assert!(b.broker_tick(packet(other, CLIENT), false).discarded);
    let mut unsub = vec![0x02, 0, 0, 0, 0];
    unsub.extend_from_slice(&[5u8; 32]);
    assert!(!b.broker_tick(packet(unsub, CLIENT), false).discarded);
    assert_eq!(b.get_subscriptions(&CLIENT), None);
    assert!(b.broker_tick(packet(vec![0x01, 0, 0, 0, 0, 1], CLIENT), false).discarded);
}

#[test]
fn publications_are_never_relayed() {
    let mut b = BrokerState::new();
    let mut p = vec![0x03];
    p.extend_from_slice(&[0u8; 40]);
    let out = b.broker_tick(packet(p, SHARD), true);
    assert!(out.discarded);
    assert!(out.actions.is_empty());
}

#[test]
fn heartbeats_go_to_the_orchestrator_from_trusted_side() {
    let mut b = BrokerState::new();
    assert!(b.broker_tick(packet(vec![0x0B, 1], SHARD), true).discarded);
    b.add_orchestrator(ORCH);
    let out = b.broker_tick(packet(vec![0x0B, 1, 2], SHARD), true);
    assert_eq!(sent(&out.actions[0]), (ORCH, vec![0x0B, 1, 2]));
    assert!(b.broker_tick(packet(vec![0x0B, 1, 2], SHARD), false).discarded);
}

#[test]
fn disconnected_client_is_reported_to_its_shard() {
    let mut b = BrokerState::new();
    b.broker_tick(packet(vec![0x0F, 0x02], SHARD), true);
    let out = b.broker_tick(packet(vec![0x06, 0], CLIENT), false);
    b.after_welcome(out.pending.unwrap());
    let out = b.broker_tick(LegacyEvent::Disconnected { connection: CLIENT }, false);
    assert_eq!(out.actions.len(), 1);
    match &out.actions[0] {
        LegacyAction::Send { connection, stream, data } => {
            assert_eq!(*connection, SHARD);
            assert!(!stream.reliable);
            assert_eq!(&data[..], &[0x09, 0, 0, 0, 0]);
        }
        other => panic!("unexpected {:?}", other),
    }
    assert_eq!(b.get_owner_by_co(&CLIENT), None);
    assert_eq!(b.get_subscriptions(&CLIENT), None);
    assert_eq!(b.get_subscribers(&[0u8; 32]), None);
}

#[test]
fn connection_gets_a_handshake_stream() {
    let mut b = BrokerState::new();
    let out = b.broker_tick(LegacyEvent::Connected { connection: 5 }, false);
    assert!(matches!(out.actions[0], LegacyAction::CreateHandshakeStream { connection: 5 }));
    assert!(!b.broker_tick(packet(vec![], 5), false).discarded);
    assert!(!b.broker_tick(LegacyEvent::Other, false).discarded);
}

#[test]
fn connexion_subscriptions_without_doubles() {
    let mut b = BrokerState::new();
    b.subscribe_connexion(1, [1u8; 32]);
    b.subscribe_connexion(1, [1u8; 32]);
    assert_eq!(b.get_subscriptions(&1), Some(&vec![[1u8; 32]]));
    assert_eq!(b.unsubscribe_connexion_from(1, [1u8; 32]), Some(()));
    assert_eq!(b.get_subscriptions(&1), Some(&vec![]));
    assert_eq!(b.unsubscribe_connexion_from(1, [1u8; 32]), None);
    b.subscribe_connexion(2, [2u8; 32]);
    assert_eq!(b.unsubscribe_connexion_all(2), Some(()));
    assert_eq!(b.get_subscribers(&[2u8; 32]), None);
    assert_eq!(b.unsubscribe_connexion_all(2), None);
}

#[test]
fn removing_clients_and_servers() {
    let mut b = BrokerState::new();
    let id = b.add_client(CLIENT);
    b.add_server([3u8; 32], SHARD);
    assert_eq!(b.get_by_client_id(&id), Some(&CLIENT));
    assert_eq!(b.get_random_server_id(), Some([3u8; 32]));
    assert_eq!(b.get_random_server_connection(), Some(SHARD));
    assert_eq!(b.set_client_authoritative_location(id, [3u8; 32]), None);
    assert_eq!(b.set_client_authoritative_location(id, [4u8; 32]), Some([3u8; 32]));
    assert_eq!(b.remove_client(id), Some(CLIENT));
    assert_eq!(b.get_owner_by_co(&CLIENT), None);
    assert_eq!(b.remove_server([3u8; 32]), Some(SHARD));
    assert_eq!(b.get_by_server_id(&[3u8; 32]), None);
    assert_eq!(b.remove_by_co(&SHARD), None);
    b.add_orchestrator(ORCH);
    assert_eq!(b.remove_by_co(&ORCH), Some(ConnectionOwner::Orchestrator()));
    assert_eq!(BrokerMessageHeaders::from_u8(0x06), BrokerMessageHeaders::ClientHello);
}

#[test]
fn subscribing_a_connection_lists_it_both_ways_once() {
    let mut state = BrokerState::new();
    let topic = [3u8; 32];
    state.subscribe_connexion(77, topic);
    state.subscribe_connexion(77, topic);
    assert_eq!(state.get_subscriptions(&77), Some(&vec![topic]));
    assert_eq!(state.get_subscribers(&topic), Some(&vec![77u128]));
    assert_eq!(state.unsubscribe_connexion_all(77), Some(()));
    assert_eq!(state.get_subscribers(&topic), None);
}
