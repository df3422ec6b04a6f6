use wdn::adjacency::{Adjacency, TileAdjacency};
use wdn::door::DoorDirection;
use wdn::material::TileKind;

fn with(walls: &[Adjacency], doors: &[Adjacency]) -> TileAdjacency {
    let mut a = TileAdjacency::NONE();
    for &w in walls {
        a.update(w, TileKind::Empty, TileKind::Wall);
    }
    for &d in doors {
        a.update(d, TileKind::Empty, TileKind::Door);
    }
    a
}

#[test]
fn walls_on_both_sides_decide() {
    let a = with(&[Adjacency::WEST(), Adjacency::EAST(), Adjacency::NORTH()], &[]);
    assert_eq!(DoorDirection::from_adjacency(&a), DoorDirection::Horizontal);
    let a = with(&[Adjacency::NORTH(), Adjacency::SOUTH(), Adjacency::WEST()], &[]);
    assert_eq!(DoorDirection::from_adjacency(&a), DoorDirection::Vertical);
}

#[test]
fn a_wall_on_one_side_decides_next() {
    let a = with(&[Adjacency::EAST()], &[]);
    assert_eq!(DoorDirection::from_adjacency(&a), DoorDirection::Horizontal);
    let a = with(&[Adjacency::SOUTH()], &[]);
    assert_eq!(DoorDirection::from_adjacency(&a), DoorDirection::Vertical);
    // West and east come first.
    let a = with(&[Adjacency::SOUTH(), Adjacency::WEST()], &[]);
    assert_eq!(DoorDirection::from_adjacency(&a), DoorDirection::Horizontal);
}

#[test]
fn doors_and_corners_count_for_nothing() {
    let a = with(
        &[Adjacency::NORTH_WEST(), Adjacency::SOUTH_EAST()],
        &[Adjacency::NORTH(), Adjacency::SOUTH()],
    );
    assert_eq!(DoorDirection::from_adjacency(&a), DoorDirection::Horizontal);
    assert_eq!(
        DoorDirection::from_adjacency(&TileAdjacency::NONE()),
        DoorDirection::Horizontal
    );
}
