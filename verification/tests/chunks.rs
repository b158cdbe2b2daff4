use mmo_replication::core_types::chunks::{GameChunk, GameChunkAera};
use std::collections::HashSet;

fn c(x: i16, y: i16) -> GameChunk {
    GameChunk { x, y }
}

#[test]
fn bounding_area_of_chunks() {
    let a = GameChunk::get_bounding_area(&[c(1, 5), c(-3, 2), c(4, -1)]);
    assert_eq!(a, GameChunkAera { x_min: -3, x_max: 4, y_min: -1, y_max: 5 });
    let empty = GameChunk::get_bounding_area(&[]);
    assert_eq!(
        empty,
        GameChunkAera { x_min: i16::MAX, x_max: i16::MIN, y_min: i16::MAX, y_max: i16::MIN }
    );
}

#[test]
fn border_of_one_chunk_is_its_eight_neighbours_in_order() {
    let borders = GameChunk::get_borders_of(&[c(0, 0)], 1);
    assert_eq!(
        borders,
        vec![c(-1, -1), c(-1, 0), c(-1, 1), c(0, -1), c(0, 1), c(1, -1), c(1, 0), c(1, 1)]
    );
}

#[test]
fn border_of_two_chunks_has_no_doubles_and_no_chunk() {
    let chunks = [c(0, 0), c(1, 0)];
    let borders = GameChunk::get_borders_of(&chunks, 1);
    assert_eq!(borders.len(), 10);
    let set: HashSet<(i16, i16)> = borders.iter().map(|b| (b.x, b.y)).collect();
    assert_eq!(set.len(), borders.len());
    assert!(!set.contains(&(0, 0)));
    assert!(!set.contains(&(1, 0)));
    for x in -1..=2 {
        for y in -1..=1 {
            if y != 0 || x == -1 || x == 2 {
                assert!(set.contains(&(x, y)), "missing {} {}", x, y);
            }
        }
    }
}

#[test]
fn border_with_margin_zero_or_no_chunk_is_empty() {
    assert!(GameChunk::get_borders_of(&[c(3, 3)], 0).is_empty());
    assert!(GameChunk::get_borders_of(&[], 1).is_empty());
    assert!(GameChunk::get_borders_of(&[], 5).is_empty());
}

#[test]
fn border_around_a_hole_includes_the_hole() {
    let mut ring = Vec::new();
    for x in 0..3 {
        for y in 0..3 {
            if (x, y) != (1, 1) {
                ring.push(c(x, y));
            }
        }
    }
    let borders = GameChunk::get_borders_of(&ring, 1);
    assert!(borders.contains(&c(1, 1)));
    assert_eq!(borders.len(), 16 + 1);
}

#[test]
fn area_contains_its_bounds() {
    let a = GameChunkAera { x_min: -1, x_max: 1, y_min: 2, y_max: 3 };
    assert!(a.contains(c(-1, 2)));
    assert!(a.contains(c(1, 3)));
    assert!(!a.contains(c(2, 3)));
    assert!(!a.contains(c(0, 4)));
}

#[test]
fn area_iterates_row_by_row() {
    let a = GameChunkAera { x_min: 0, x_max: 1, y_min: 5, y_max: 6 };
    let mut it = a.iter();
    let mut seen = Vec::new();
    while let Some(ch) = it.next() {
        seen.push(ch);
    }
    assert_eq!(seen, vec![c(0, 5), c(1, 5), c(0, 6), c(1, 6)]);
}

#[test]
fn area_borders_are_four_strips() {
    let a = GameChunkAera { x_min: 0, x_max: 1, y_min: 0, y_max: 0 };
    let strips = a.get_borders_as_aera(1);
    assert_eq!(
        strips,
        vec![
            GameChunkAera { x_min: -1, x_max: 2, y_min: -1, y_max: -1 },
            GameChunkAera { x_min: -1, x_max: 2, y_min: 1, y_max: 1 },
            GameChunkAera { x_min: -1, x_max: -1, y_min: 0, y_max: 0 },
            GameChunkAera { x_min: 2, x_max: 2, y_min: 0, y_max: 0 },
        ]
    );
    let chunks = a.get_borders(1);
    assert_eq!(chunks.len(), 4 + 4 + 1 + 1);
    assert_eq!(chunks[0], c(-1, -1));
    assert_eq!(chunks[9], c(2, 0));
}

#[test]
fn chunk_is_an_area_of_one() {
    let a: GameChunkAera = c(4, -2).into();
    assert_eq!(a, GameChunkAera { x_min: 4, x_max: 4, y_min: -2, y_max: -2 });
}
