use wdn::collision::CollisionTarget;
use wdn::index::TilePosition;

#[test]
fn a_collider_target_stands_for_the_same_collider() {
    let a = CollisionTarget::Collider { id: 3 };
    assert!(a.contains(&CollisionTarget::Collider { id: 3 }));
    assert!(!a.contains(&CollisionTarget::Collider { id: 4 }));
    let tile = CollisionTarget::Tile { id: Some(3), position: TilePosition::new(0, 1, 2) };
    assert!(!a.contains(&tile));
    assert!(!tile.contains(&a));
}

#[test]
fn a_tile_target_stands_for_the_same_position() {
    let here = TilePosition::new(0, 1, 2);
    let there = TilePosition::new(0, 2, 2);
    let named = CollisionTarget::Tile { id: Some(5), position: here };
    assert!(named.contains(&CollisionTarget::Tile { id: None, position: here }));
    assert!(named.contains(&CollisionTarget::Tile { id: Some(5), position: here }));
    assert!(!named.contains(&CollisionTarget::Tile { id: Some(6), position: here }));
    assert!(!named.contains(&CollisionTarget::Tile { id: None, position: there }));
    assert!(!named.contains(&CollisionTarget::Tile { id: Some(5), position: there }));
    let unnamed = CollisionTarget::Tile { id: None, position: here };
    assert!(!unnamed.contains(&unnamed));
    assert!(!unnamed.contains(&named));
}
