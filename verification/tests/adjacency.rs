use wdn::adjacency::{Adjacency, TileAdjacency};
use wdn::material::TileKind;

#[test]
fn test_flip_x() {
    assert_eq!(Adjacency::NORTH().flip_x(), Adjacency::NORTH());
    assert_eq!(Adjacency::SOUTH().flip_x(), Adjacency::SOUTH());
    assert_eq!(Adjacency::EAST().flip_x(), Adjacency::WEST());
    assert_eq!(Adjacency::WEST().flip_x(), Adjacency::EAST());
    assert_eq!(Adjacency::NORTH_EAST().flip_x(), Adjacency::NORTH_WEST());
    assert_eq!(Adjacency::NORTH_WEST().flip_x(), Adjacency::NORTH_EAST());
    assert_eq!(Adjacency::SOUTH_EAST().flip_x(), Adjacency::SOUTH_WEST());
    assert_eq!(Adjacency::SOUTH_WEST().flip_x(), Adjacency::SOUTH_EAST());
}

#[test]
fn test_flip_y() {
    assert_eq!(Adjacency::EAST().flip_y(), Adjacency::EAST());
    assert_eq!(Adjacency::WEST().flip_y(), Adjacency::WEST());
    assert_eq!(Adjacency::NORTH().flip_y(), Adjacency::SOUTH());
    assert_eq!(Adjacency::SOUTH().flip_y(), Adjacency::NORTH());
    assert_eq!(Adjacency::NORTH_EAST().flip_y(), Adjacency::SOUTH_EAST());
    assert_eq!(Adjacency::SOUTH_EAST().flip_y(), Adjacency::NORTH_EAST());
    assert_eq!(Adjacency::NORTH_WEST().flip_y(), Adjacency::SOUTH_WEST());
    assert_eq!(Adjacency::SOUTH_WEST().flip_y(), Adjacency::NORTH_WEST());
}

#[test]
fn test_update() {
    let mut adj = TileAdjacency::NONE();

    adj.update(Adjacency::NORTH(), TileKind::Empty, TileKind::Wall);
    assert_eq!(adj.walls(), Adjacency::NORTH());
    assert_eq!(adj.doors(), Adjacency::NONE());

    adj.update(Adjacency::NORTH(), TileKind::Wall, TileKind::Door);
    assert_eq!(adj.walls(), Adjacency::NONE());
    assert_eq!(adj.doors(), Adjacency::NORTH());

    adj.update(Adjacency::NORTH(), TileKind::Door, TileKind::Empty);
    assert_eq!(adj.walls(), Adjacency::NONE());
    assert_eq!(adj.doors(), Adjacency::NONE());

    adj.update(Adjacency::EAST(), TileKind::Empty, TileKind::Wall);
    adj.update(Adjacency::SOUTH(), TileKind::Empty, TileKind::Door);
    assert_eq!(adj.walls(), Adjacency::EAST());
    assert_eq!(adj.doors(), Adjacency::SOUTH());
    assert_eq!(adj.solid(), Adjacency::EAST().union(Adjacency::SOUTH()));

    adj.update(Adjacency::EAST(), TileKind::Wall, TileKind::Empty);
    assert_eq!(adj.walls(), Adjacency::NONE());
    assert_eq!(adj.doors(), Adjacency::SOUTH());

    adj.update(Adjacency::WEST(), TileKind::Empty, TileKind::Stairs);
    assert_eq!(adj.stairs(), Adjacency::WEST());
    assert_eq!(adj.walls(), Adjacency::NONE());
    assert_eq!(adj.doors(), Adjacency::SOUTH());
    assert_eq!(adj.solid(), Adjacency::SOUTH());

    adj.update(Adjacency::WEST(), TileKind::Stairs, TileKind::Wall);
    assert_eq!(adj.stairs(), Adjacency::NONE());
    assert_eq!(adj.walls(), Adjacency::WEST());

    adj.update(Adjacency::WEST(), TileKind::Wall, TileKind::Stairs);
    assert_eq!(adj.walls(), Adjacency::NONE());
    assert_eq!(adj.stairs(), Adjacency::WEST());

    adj.update(Adjacency::WEST(), TileKind::Stairs, TileKind::Door);
    assert_eq!(adj.stairs(), Adjacency::NONE());
    assert_eq!(adj.doors(), Adjacency::SOUTH().union(Adjacency::WEST()));

    adj.update(Adjacency::WEST(), TileKind::Door, TileKind::Stairs);
    assert_eq!(adj.doors(), Adjacency::SOUTH());
    assert_eq!(adj.stairs(), Adjacency::WEST());

    adj.update(Adjacency::WEST(), TileKind::Stairs, TileKind::Empty);
    assert_eq!(adj.stairs(), Adjacency::NONE());
    assert_eq!(adj.doors(), Adjacency::SOUTH());
}

#[test]
fn flips_are_involutions_on_every_set() {
    for adjacency in Adjacency::values() {
        assert_eq!(adjacency.flip_x().flip_x(), adjacency);
        assert_eq!(adjacency.flip_y().flip_y(), adjacency);
    }
}

#[test]
fn flip_of_a_combined_set() {
    let set = Adjacency::NORTH_EAST()
        .union(Adjacency::EAST())
        .union(Adjacency::SOUTH());
    assert_eq!(
        set.flip_x(),
        Adjacency::NORTH_WEST()
            .union(Adjacency::WEST())
            .union(Adjacency::SOUTH())
    );
    assert_eq!(set.flip_x().bits(), 0b1010_0001);
    assert_eq!(
        set.flip_y(),
        Adjacency::SOUTH_EAST()
            .union(Adjacency::EAST())
            .union(Adjacency::NORTH())
    );
}

#[test]
fn kinds_partition_the_neighbours() {
    let mut adj = TileAdjacency::default();
    assert_eq!(adj.empty(), Adjacency::from_bits_retain(0xff));
    adj.update(Adjacency::NORTH(), TileKind::Empty, TileKind::Wall);
    adj.update(Adjacency::SOUTH(), TileKind::Empty, TileKind::Door);
    adj.update(Adjacency::EAST(), TileKind::Empty, TileKind::Stairs);
    assert_eq!(adj.get(TileKind::Wall), Adjacency::NORTH());
    assert_eq!(adj.get(TileKind::Door), Adjacency::SOUTH());
    assert_eq!(adj.get(TileKind::Stairs), Adjacency::EAST());
    assert_eq!(adj.get(TileKind::Empty), Adjacency::from_bits_retain(0b1101_0101));
    assert_eq!(adj.solid(), Adjacency::NORTH().union(Adjacency::SOUTH()));
}

#[test]
fn set_operations() {
    let mut set = Adjacency::NONE();
    set.insert(Adjacency::WEST());
    set.insert(Adjacency::NORTH());
    assert!(set.contains(Adjacency::WEST()));
    assert!(!set.contains(Adjacency::EAST()));
    set.remove(Adjacency::WEST());
    assert_eq!(set, Adjacency::NORTH());
    assert_eq!(set.complement().bits(), 0b1111_1101);
    assert_eq!(Adjacency::values().len(), 256);
    assert_eq!(Adjacency::values()[37].bits(), 37);
}
