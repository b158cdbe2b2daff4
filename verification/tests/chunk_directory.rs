use mmo_replication::core_types::chunks::{GameChunk, GameChunkAera};
use mmo_replication::game_server::chunk_directory::AssignedChunks;
use mmo_replication::game_message::msg_dgs::ChunkHandOffAction;
use mmo_replication::game_server::handoff::{
    inner_inputs_pattern, next_transfer, on_chunk_data, on_handoff, HandoffReaction, TransferStep,
};
use mmo_replication::game_server::Authority;

fn c(x: i16, y: i16) -> GameChunk {
    GameChunk { x, y }
}

fn area(x_min: i16, x_max: i16, y_min: i16, y_max: i16) -> GameChunkAera {
    GameChunkAera { x_min, x_max, y_min, y_max }
}

fn sorted(mut v: Vec<GameChunk>) -> Vec<(i16, i16)> {
    v.sort_by_key(|c| (c.x, c.y));
    v.into_iter().map(|c| (c.x, c.y)).collect()
}

fn sorted_pairs(mut v: Vec<(i16, i16)>) -> Vec<(i16, i16)> {
    v.sort();
    v
}

#[test]
fn new_directory_is_empty() {
    let d = AssignedChunks::new();
    assert!(d.assigned_chunks.is_empty());
    assert!(d.ghost_chunks.is_empty());
}

#[test]
fn taking_chunks_assigns_them_and_drops_their_ghosts() {
    let mut d = AssignedChunks::new();
    d.ghost_chunks.insert(c(1, 1));
    d.ghost_chunks.insert(c(5, 5));
    d.take_chunks(&area(0, 1, 0, 1));
    assert_eq!(sorted(d.assigned_chunks.to_vec()), vec![(0, 0), (0, 1), (1, 0), (1, 1)]);
    assert_eq!(sorted(d.ghost_chunks.to_vec()), vec![(5, 5)]);
}

#[test]
fn taking_an_area_watches_its_ring() {
    let mut d = AssignedChunks::new();
    d.assigned_chunks.insert(c(1, 0));
    let fresh = d.take_area_ring(&area(0, 0, 0, 0));
    let expected = vec![(-1, -1), (0, -1), (1, -1), (-1, 1), (0, 1), (1, 1), (-1, 0)];
    assert_eq!(fresh.iter().map(|c| (c.x, c.y)).collect::<Vec<_>>(), expected);
    assert_eq!(sorted(d.ghost_chunks.to_vec()), sorted_pairs(expected));
    assert_eq!(sorted(d.assigned_chunks.to_vec()), vec![(1, 0)]);
}

#[test]
fn releasing_nothing_changes_nothing() {
    let mut d = AssignedChunks::new();
    d.take_chunks(&area(0, 2, 0, 2));
    d.ghost_chunks.insert(c(-1, -1));
    let plan = d.release_area(None);
    assert!(plan.killed_ghosts.is_empty());
    assert!(plan.inner.is_none());
    assert!(plan.regular_unsubscribe.is_empty());
    assert_eq!(d.assigned_chunks.len(), 9);
    assert_eq!(d.ghost_chunks.len(), 1);
}

#[test]
fn releasing_the_only_area_drops_its_whole_ring() {
    let mut d = AssignedChunks::new();
    d.take_chunks(&area(0, 2, 0, 2));
    d.take_area_ring(&area(0, 2, 0, 2));
    d.ghost_chunks.insert(c(9, 9));
    let plan = d.release_area(Some(area(0, 2, 0, 2)));
    assert!(d.assigned_chunks.is_empty());
    assert_eq!(plan.killed_ghosts.len(), 16);
    assert_eq!(plan.inner, Some(area(1, 1, 1, 1)));
    assert_eq!(
        sorted(plan.regular_unsubscribe),
        vec![(0, 0), (0, 1), (0, 2), (1, 0), (1, 2), (2, 0), (2, 1), (2, 2)]
    );
    assert_eq!(sorted(d.ghost_chunks.to_vec()), vec![(9, 9)]);
}

#[test]
fn releasing_beside_a_kept_area_keeps_the_shared_frontier() {
    let mut d = AssignedChunks::new();
    d.take_chunks(&area(0, 5, 0, 2));
    let plan = d.release_area(Some(area(0, 2, 0, 2)));
    assert_eq!(
        sorted(d.assigned_chunks.to_vec()),
        vec![(3, 0), (3, 1), (3, 2), (4, 0), (4, 1), (4, 2), (5, 0), (5, 1), (5, 2)]
    );
    assert_eq!(
        sorted(plan.killed_ghosts),
        sorted_pairs(vec![
            (-1, -1),
            (0, -1),
            (1, -1),
            (-1, 3),
            (0, 3),
            (1, 3),
            (-1, 0),
            (-1, 1),
            (-1, 2),
            (3, 0),
            (3, 1),
            (3, 2),
        ])
    );
    assert_eq!(sorted(plan.regular_unsubscribe), vec![(0, 0), (0, 1), (0, 2), (1, 0), (1, 2)]);
}

#[test]
fn take_then_release_gives_back_the_assigned_chunks() {
    let mut d = AssignedChunks::new();
    d.take_chunks(&area(10, 11, 10, 10));
    d.take_chunks(&area(0, 2, 0, 2));
    d.release_area(Some(area(0, 2, 0, 2)));
    assert_eq!(sorted(d.assigned_chunks.to_vec()), vec![(10, 10), (11, 10)]);
}

#[test]
fn entities_leaving_the_assigned_chunks_are_handed_over() {
    let mut d = AssignedChunks::new();
    d.take_chunks(&area(0, 0, 0, 0));
    let mut auth = Authority::Authoritative;
    assert!(!d.relieve_authority(&mut auth, c(0, 0)));
    assert_eq!(auth, Authority::Authoritative);
    assert!(d.relieve_authority(&mut auth, c(1, 0)));
    assert_eq!(auth, Authority::LastAuthFrame);
    let mut ghost = Authority::GhostCopy;
    assert!(!d.relieve_authority(&mut ghost, c(5, 5)));
    assert_eq!(ghost, Authority::GhostCopy);
}

#[test]
fn entities_outside_watched_chunks_are_despawned() {
    let mut d = AssignedChunks::new();
    d.take_chunks(&area(0, 0, 0, 0));
    d.take_area_ring(&area(0, 0, 0, 0));
    let mut auth = Authority::LastAuthFrame;
    assert!(d.keeps_entity(&mut auth, c(1, 1)));
    assert_eq!(auth, Authority::GhostCopy);
    let mut own = Authority::Authoritative;
    assert!(d.keeps_entity(&mut own, c(0, 0)));
    assert_eq!(own, Authority::Authoritative);
    assert!(!d.keeps_entity(&mut own, c(3, 3)));
}

#[test]
fn taking_areas_watches_rings_and_takes_ownerless_areas_at_once() {
    let mut d = AssignedChunks::new();
    let mut pending = Vec::new();
    let areas = vec![(area(0, 0, 0, 0), None), (area(1, 1, 0, 0), Some(42))];
    match on_handoff(&mut d, &mut pending, ChunkHandOffAction::TakeArea, areas) {
        HandoffReaction::Take(steps) => {
            assert_eq!(steps.len(), 2);
            assert_eq!(steps[0].old_owner, None);
            assert_eq!(steps[0].border.len(), 8);
            assert_eq!(steps[1].area, area(1, 1, 0, 0));
            assert_eq!(steps[1].old_owner, Some(42));
            // (0, 0) is simulated by now, so it is not a ghost of the second area.
            assert_eq!(steps[1].border.len(), 7);
            assert!(!steps[1].border.contains(&c(0, 0)));
        }
        other => panic!("unexpected {:?}", other),
    }
    assert_eq!(sorted(d.assigned_chunks.to_vec()), vec![(0, 0)]);
    assert!(pending.is_empty());
    assert!(d.ghost_chunks.contains(&c(1, 0)));
    assert!(d.ghost_chunks.contains(&c(2, 1)));
    assert!(!d.ghost_chunks.contains(&c(0, 0)));
}

#[test]
fn ready_to_take_queues_and_frames_hand_over_one_area_each() {
    let mut d = AssignedChunks::new();
    d.take_chunks(&area(0, 2, 0, 2));
    let mut pending = Vec::new();
    let r = on_handoff(
        &mut d,
        &mut pending,
        ChunkHandOffAction::ReadyToTake,
        vec![(area(5, 5, 5, 5), None), (area(0, 2, 0, 2), Some(9))],
    );
    assert!(matches!(r, HandoffReaction::Queued));
    assert_eq!(pending.len(), 2);
    assert!(matches!(next_transfer(&mut d, &mut pending), TransferStep::Skipped));
    assert_eq!(d.assigned_chunks.len(), 9);
    match next_transfer(&mut d, &mut pending) {
        TransferStep::HandOver { area: a, target, plan } => {
            assert_eq!(a, area(0, 2, 0, 2));
            assert_eq!(target, 9);
            assert_eq!(plan.killed_ghosts.len(), 16);
            assert_eq!(plan.inner, Some(area(1, 1, 1, 1)));
        }
        other => panic!("unexpected {:?}", other),
    }
    assert!(d.assigned_chunks.is_empty());
    assert!(matches!(next_transfer(&mut d, &mut pending), TransferStep::Idle));
    let r = on_handoff(&mut d, &mut pending, ChunkHandOffAction::AeraTook, vec![(area(0, 0, 0, 0), None)]);
    assert!(matches!(r, HandoffReaction::Ignored));
    assert!(pending.is_empty());
}

#[test]
fn chunk_data_from_another_server_stops_listening_to_their_state() {
    let mut d = AssignedChunks::new();
    d.ghost_chunks.insert(c(0, 0));
    assert!(on_chunk_data(&mut d, &area(0, 1, 0, 0), None).is_none());
    let p = on_chunk_data(&mut d, &area(2, 2, 0, 1), Some(4)).unwrap();
    assert_eq!(sorted(d.assigned_chunks.to_vec()), vec![(0, 0), (1, 0), (2, 0), (2, 1)]);
    assert!(d.ghost_chunks.is_empty());
    let mut topics = Vec::new();
    p.unpack_into(&mut topics);
    assert_eq!(topics.len(), 2);
    assert_eq!(topics[0][0] & 0x3f, 0x06);
    assert_eq!(&topics[1][1..5], &[2, 0, 1, 0]);
}

#[test]
fn inner_inputs_cover_the_inner_area() {
    let mut topics = Vec::new();
    inner_inputs_pattern(area(1, 2, 1, 1)).unpack_into(&mut topics);
    assert_eq!(topics.len(), 2);
    assert_eq!(topics[0][0] & 0x3f, 0x11);
    assert_eq!(&topics[0][1..5], &[1, 0, 1, 0]);
    assert_eq!(&topics[1][1..5], &[2, 0, 1, 0]);
}
