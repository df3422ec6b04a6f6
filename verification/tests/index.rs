use wdn::index::{TileIndex, TilePosition};

#[test]
fn test_index_get_objects() {
    let mut index = TileIndex::new();
    let layer = 0u64;
    let entity1 = 1u64;
    let entity2 = 2u64;
    let tile = TilePosition::new(layer, 0, 0);

    index.insert_object(entity1, tile);
    index.insert_object(entity2, tile);
    assert_eq!(index.get_objects(tile).len(), 2);
    assert!(index.get_objects(tile).contains(&entity1));
    assert!(index.get_objects(tile).contains(&entity2));

    index.remove_object(entity1, tile);
    assert_eq!(index.get_objects(tile), &[entity2]);

    index.remove_object(entity2, tile);
    assert_eq!(index.get_objects(tile), &[] as &[u64]);
    assert!(!index.contains(tile));

    index.remove_object(entity1, tile);
    assert_eq!(index.get_objects(tile), &[] as &[u64]);
}

#[test]
fn test_index_get_tile_empty() {
    let index = TileIndex::new();
    let layer = 0u64;
    let tile = TilePosition::new(layer, 0, 0);

    assert_eq!(index.get_tile(tile), None);
}

#[test]
fn test_index_get_tile() {
    let mut index = TileIndex::new();
    let layer = 0u64;
    let tile_entity1 = 1u64;
    let tile_entity2 = 2u64;
    let tile = TilePosition::new(layer, 0, 0);

    assert_eq!(index.insert_tile(tile_entity1, tile), None);
    assert_eq!(index.get_tile(tile), Some(tile_entity1));

    assert_eq!(index.insert_tile(tile_entity2, tile), Some(tile_entity1));
    assert_eq!(index.get_tile(tile), Some(tile_entity2));
}

#[test]
fn test_index_remove_tile() {
    let mut index = TileIndex::new();
    let layer = 0u64;
    let tile_entity = 1u64;
    let wrong_tile_entity = 2u64;
    let tile = TilePosition::new(layer, 0, 0);

    index.insert_tile(tile_entity, tile);
    index.remove_tile(wrong_tile_entity, tile);
    assert_eq!(index.get_tile(tile), Some(tile_entity));

    index.remove_tile(tile_entity, tile);
    assert_eq!(index.get_tile(tile), None);
    assert!(!index.contains(tile));

    index.remove_tile(tile_entity, tile);
    assert_eq!(index.get_tile(tile), None);
}

#[test]
fn test_index_remove_tile_objects_exist() {
    let mut index = TileIndex::new();
    let layer = 0u64;
    let tile_entity = 1u64;
    let object_entity = 2u64;
    let tile = TilePosition::new(layer, 0, 0);

    index.insert_tile(tile_entity, tile);
    index.insert_object(object_entity, tile);

    index.remove_tile(tile_entity, tile);
    assert_eq!(index.get_tile(tile), None);
    assert_eq!(index.get_objects(tile), &[object_entity]);
    assert!(index.contains(tile));

    index.remove_object(object_entity, tile);
    assert_eq!(index.get_objects(tile), &[] as &[u64]);
    assert!(!index.contains(tile));
}

#[test]
fn test_index_remove_object_tile_exists() {
    let mut index = TileIndex::new();
    let layer = 0u64;
    let tile_entity = 1u64;
    let object_entity = 2u64;
    let wrong_object_entity = 3u64;
    let tile = TilePosition::new(layer, 0, 0);

    index.insert_tile(tile_entity, tile);
    index.insert_object(object_entity, tile);

    index.remove_object(wrong_object_entity, tile);
    assert_eq!(index.get_objects(tile), &[object_entity]);
    assert_eq!(index.get_tile(tile), Some(tile_entity));

    index.remove_object(object_entity, tile);
    assert_eq!(index.get_objects(tile), &[] as &[u64]);
    assert_eq!(index.get_tile(tile), Some(tile_entity));
    assert!(index.contains(tile));

    index.remove_tile(tile_entity, tile);
    assert_eq!(index.get_tile(tile), None);
    assert!(!index.contains(tile));
}

#[test]
fn index_removal_moves_the_last_object() {
    let mut index = TileIndex::new();
    let tile = TilePosition::new(7, -3, 12);
    let other = TilePosition::new(8, -3, 12);
    for id in [10u64, 11, 12, 13] {
        index.insert_object(id, tile);
    }
    index.insert_object(99, other);
    index.remove_object(11, tile);
    assert_eq!(index.get_objects(tile), &[10, 13, 12]);
    assert_eq!(index.get_objects(other), &[99]);
    assert_eq!(index.get_tile(other), None);
}

#[test]
fn index_insert_then_remove_restores() {
    let mut index = TileIndex::new();
    let tile = TilePosition::new(1, 2, 3);
    index.insert_object(5, tile);
    index.insert_object(6, tile);
    index.remove_object(6, tile);
    assert_eq!(index.get_objects(tile), &[5]);
    index.insert_tile(9, tile);
    index.remove_tile(9, tile);
    assert_eq!(index.get_tile(tile), None);
    assert_eq!(index.get_objects(tile), &[5]);
}

#[test]
fn removing_an_object_takes_out_one_occurrence() {
    let mut index = TileIndex::new();
    let tile = TilePosition::new(0, 3, 4);
    let other = TilePosition::new(0, 3, 5);
    for id in [1u64, 2, 3, 2] {
        index.insert_object(id, tile);
    }
    index.insert_object(9, other);
    index.insert_tile(7, tile);
    index.remove_object(2, tile);
    let mut left = index.get_objects(tile).to_vec();
    left.sort();
    assert_eq!(left, vec![1, 2, 3]);
    assert_eq!(index.get_tile(tile), Some(7));
    assert_eq!(index.get_objects(other), &[9]);
    index.remove_object(5, tile);
    assert_eq!(index.get_objects(tile).len(), 3);
}
