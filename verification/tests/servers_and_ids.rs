use mmo_replication::broker_protocol::topics::{Namespace, SecurityDomain, TopicBuilder};
use mmo_replication::core_types::chunks::GameChunk;
use mmo_replication::game_client::LocalPlayer;
use mmo_replication::game_client::ClientState;
use mmo_replication::game_server::{Authority, ClientDirectory, NetworkId, NetworkIdGenerator};
use mmo_replication::not_games;
use mmo_replication::orchestrator;

fn not_games_server(id: &str, online: u32, max: u32) -> not_games::GameServer {
    let mut s = not_games::GameServer::new(id.to_string(), max, 4000, "10.0.0.1".to_string());
    s.players_online = online;
    s
}

fn orchestrated(name: &str, online: u32, max: u32) -> orchestrator::GameServer {
    let mut s = orchestrator::GameServer::new(name.to_string(), max);
    s.players_online = online;
    s
}

#[test]
fn not_games_server_starts_empty_in_na() {
    let s = not_games::GameServer::new("eu-1".to_string(), 64, 7777, "1.2.3.4".to_string());
    assert_eq!(s.id, "eu-1");
    assert_eq!(s.address, "1.2.3.4");
    assert_eq!(s.port, 7777);
    assert_eq!(s.area, "NA");
    assert_eq!(s.players_online, 0);
    assert_eq!(s.players_max, 64);
}

#[test]
fn available_servers_keeps_those_with_room_in_order() {
    let servers = vec![
        not_games_server("a", 10, 10),
        not_games_server("b", 3, 10),
        not_games_server("c", 0, 0),
        not_games_server("d", 9, 10),
    ];
    let kept: Vec<String> = not_games::available_servers(servers).into_iter().map(|s| s.id).collect();
    assert_eq!(kept, vec!["b".to_string(), "d".to_string()]);
    assert!(not_games::available_servers(Vec::new()).is_empty());
}

#[test]
fn orchestrator_server_starts_without_address() {
    let s = orchestrator::GameServer::new("shard".to_string(), 20);
    assert_eq!(s.name, "shard");
    assert_eq!(s.address, "");
    assert_eq!(s.players_online, 0);
    assert_eq!(s.players_max, 20);
}

#[test]
fn pick_available_server_takes_the_first_with_room() {
    let servers = vec![orchestrated("full", 5, 5), orchestrated("one", 1, 5), orchestrated("two", 0, 5)];
    let picked = orchestrator::pick_available_server(servers).unwrap();
    assert_eq!(picked.name, "one");
    let none = orchestrator::pick_available_server(vec![orchestrated("full", 5, 5)]);
    assert!(none.is_none());
}

#[test]
fn network_ids_count_up_from_zero() {
    let mut generator = NetworkIdGenerator::new();
    assert_eq!(generator.next(), NetworkId(0));
    assert_eq!(generator.next(), NetworkId(1));
    assert_eq!(generator.next(), NetworkId(2));
}

#[test]
fn only_a_ghost_takes_the_received_authority() {
    assert_eq!(Authority::GhostCopy.on_update(Authority::Authoritative), Authority::Authoritative);
    assert_eq!(Authority::GhostCopy.on_update(Authority::LastAuthFrame), Authority::LastAuthFrame);
    assert_eq!(Authority::Authoritative.on_update(Authority::GhostCopy), Authority::Authoritative);
    assert_eq!(Authority::LastAuthFrame.on_update(Authority::GhostCopy), Authority::LastAuthFrame);
}

#[test]
fn client_starts_at_the_login_menu() {
    assert_eq!(ClientState::default(), ClientState::LoginMenu);
}

#[test]
fn players_join_and_the_last_to_leave_empties_the_server() {
    let mut s = orchestrator::GameServer::new("shard".to_string(), 2);
    s.player_joined();
    s.player_joined();
    assert_eq!(s.players_online, 2);
    assert!(!s.player_left());
    assert_eq!(s.players_online, 1);
    assert!(s.player_left());
    assert_eq!(s.players_online, 0);
}

fn chunk_state_topic(x: i16, y: i16) -> [u8; 16] {
    TopicBuilder::new(SecurityDomain::PublicReadPrivateWrite, Namespace::Chunk)
        .append_chunk(&GameChunk { x, y })
        .build()
}

#[test]
fn entering_a_new_chunk_watches_it_and_its_ring() {
    let mut player = LocalPlayer { net_id: 3, pseudo: None, entity_net_id: None, chunk: GameChunk { x: 0, y: 0 } };
    assert!(player.enter_chunk(GameChunk { x: 0, y: 0 }).is_empty());
    let topics = player.enter_chunk(GameChunk { x: 1, y: 2 });
    assert_eq!(player.chunk, GameChunk { x: 1, y: 2 });
    let expected: Vec<[u8; 16]> = [(0, 1), (1, 1), (2, 1), (0, 3), (1, 3), (2, 3), (0, 2), (2, 2), (1, 2)]
        .iter()
        .map(|&(x, y)| chunk_state_topic(x, y))
        .collect();
    assert_eq!(topics, expected);
}

#[test]
fn sessions_record_and_forget_entities() {
    let mut d = ClientDirectory::new();
    d.record_entity(7, 100);
    d.record_entity(7, 101);
    d.record_entity(8, 200);
    assert!(d.owns(7, 101));
    assert!(!d.owns(8, 101));
    assert!(!d.owns(9, 1));
    d.forget_entity(7, 100);
    assert!(!d.owns(7, 100));
    assert!(d.owns(7, 101));
    d.forget_entity(9, 1);
    assert_eq!(d.end_session(7), Some(vec![101]));
    assert_eq!(d.end_session(7), None);
    assert_eq!(d.end_session(8), Some(vec![200]));
}
