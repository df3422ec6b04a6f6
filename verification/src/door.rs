//! Which way a door is drawn, from the walls around it.
use crate::adjacency::{flipped_x_bits, flipped_y_bits, walls_of, Adjacency, TileAdjacency};
use vstd::prelude::*;

verus! {

/// The way a door runs: across the tile from west to east, or from north
/// to south.
#[derive(Debug, Clone, Copy, PartialEq, Eq, Structural)]
pub enum DoorDirection {
    Horizontal,
    Vertical,
}

/// The direction of a door whose neighbouring walls are `walls`: the way
/// that has walls on both sides, else the way that has a wall on one side,
/// horizontal first; horizontal where no wall is west, east, north or
/// south of it.
pub open spec fn door_direction(walls: u8) -> DoorDirection {
    let west_east: u8 = 0x88;
    let north_south: u8 = 0x22;
    if walls & west_east == west_east {
        DoorDirection::Horizontal
    } else if walls & north_south == north_south {
        DoorDirection::Vertical
    } else if walls & west_east != 0 {
        DoorDirection::Horizontal
    } else if walls & north_south != 0 {
        DoorDirection::Vertical
    } else {
        DoorDirection::Horizontal
    }
}

/// Whether `a` and `b` have a direction in common.
fn intersects(a: Adjacency, b: Adjacency) -> (r: bool)
    ensures
        r == (a.view_bits() & b.view_bits() != 0),
{
    a.intersection(b).bits() != 0
}

/// The pairs of sides that a door's direction reads, bit by bit.
proof fn lemma_side_bits(walls: u8)
    by (bit_vector)
    ensures
        (walls & 0x88u8 == 0x88u8) == (walls & 0x80u8 != 0 && walls & 0x08u8 != 0),
        (walls & 0x22u8 == 0x22u8) == (walls & 0x02u8 != 0 && walls & 0x20u8 != 0),
        (walls & 0x88u8 != 0) == (walls & 0x80u8 != 0 || walls & 0x08u8 != 0),
        (walls & 0x22u8 != 0) == (walls & 0x02u8 != 0 || walls & 0x20u8 != 0),
{
}

/// Mirroring left to right swaps the walls west and east and keeps those
/// north and south; mirroring top to bottom swaps north and south and keeps
/// west and east.
proof fn lemma_mirrored_side_bits(walls: u8, x: u8, y: u8)
    by (bit_vector)
    requires
        x == (((walls & 0x01) << 7u8) | ((walls & 0x02) << 5u8) | ((walls & 0x04) << 3u8) | ((walls
            & 0x08) << 1u8) | ((walls & 0x10) >> 1u8) | ((walls & 0x20) >> 3u8) | ((walls & 0x40)
            >> 5u8) | ((walls & 0x80) >> 7u8)) >> 5u8 | (((walls & 0x01) << 7u8) | ((walls & 0x02) << 5u8) | ((walls & 0x04) << 3u8) | ((walls
            & 0x08) << 1u8) | ((walls & 0x10) >> 1u8) | ((walls & 0x20) >> 3u8) | ((walls & 0x40)
            >> 5u8) | ((walls & 0x80) >> 7u8)) << 3u8,
        y == (((walls & 0x01) << 7u8) | ((walls & 0x02) << 5u8) | ((walls & 0x04) << 3u8) | ((walls
            & 0x08) << 1u8) | ((walls & 0x10) >> 1u8) | ((walls & 0x20) >> 3u8) | ((walls & 0x40)
            >> 5u8) | ((walls & 0x80) >> 7u8)) >> 1u8 | (((walls & 0x01) << 7u8) | ((walls & 0x02) << 5u8) | ((walls & 0x04) << 3u8) | ((walls
            & 0x08) << 1u8) | ((walls & 0x10) >> 1u8) | ((walls & 0x20) >> 3u8) | ((walls & 0x40)
            >> 5u8) | ((walls & 0x80) >> 7u8)) << 7u8,
    ensures
        (x & 0x80u8 != 0) == (walls & 0x08u8 != 0),
        (x & 0x08u8 != 0) == (walls & 0x80u8 != 0),
        (x & 0x02u8 != 0) == (walls & 0x02u8 != 0),
        (x & 0x20u8 != 0) == (walls & 0x20u8 != 0),
        (y & 0x80u8 != 0) == (walls & 0x80u8 != 0),
        (y & 0x08u8 != 0) == (walls & 0x08u8 != 0),
        (y & 0x02u8 != 0) == (walls & 0x20u8 != 0),
        (y & 0x20u8 != 0) == (walls & 0x02u8 != 0),
{
}

/// A door runs west to east where walls lie both west and east of it; else
/// north to south where they lie both north and south; else toward a
/// single wall west or east before one north or south; and west to east
/// where no wall lies beside it at all.
pub proof fn lemma_door_direction_by_walls(walls: u8)
    ensures
        walls & 0x80u8 != 0 && walls & 0x08u8 != 0 ==> door_direction(walls)
            == DoorDirection::Horizontal,
        walls & 0x02u8 != 0 && walls & 0x20u8 != 0 && !(walls & 0x80u8 != 0 && walls & 0x08u8
            != 0) ==> door_direction(walls) == DoorDirection::Vertical,
        (walls & 0x80u8 != 0 || walls & 0x08u8 != 0) && !(walls & 0x02u8 != 0 && walls & 0x20u8
            != 0) ==> door_direction(walls) == DoorDirection::Horizontal,
        (walls & 0x02u8 != 0 || walls & 0x20u8 != 0) && walls & 0x80u8 == 0 && walls & 0x08u8
            == 0 ==> door_direction(walls) == DoorDirection::Vertical,
        walls & 0x02u8 == 0 && walls & 0x20u8 == 0 ==> door_direction(walls)
            == DoorDirection::Horizontal,
{
    lemma_side_bits(walls);
}

/// A door runs the same way in a mirror image: mirroring the walls around
/// it left to right, or top to bottom, leaves its direction.
pub proof fn lemma_door_direction_mirror(walls: u8)
    ensures
        door_direction(flipped_x_bits(walls)) == door_direction(walls),
        door_direction(flipped_y_bits(walls)) == door_direction(walls),
{
    let x = flipped_x_bits(walls);
    let y = flipped_y_bits(walls);
    lemma_mirrored_side_bits(walls, x, y);
    lemma_door_direction_by_walls(walls);
    lemma_door_direction_by_walls(x);
    lemma_door_direction_by_walls(y);
}

impl DoorDirection {
    /// The direction of a door with the given neighbours.
    pub fn from_adjacency(adjacency: &TileAdjacency) -> (r: Self)
        ensures
            r == door_direction(walls_of(adjacency.first(), adjacency.second())),
    {
        let walls = adjacency.walls();
        let west_east = Adjacency::WEST().union(Adjacency::EAST());
        let north_south = Adjacency::NORTH().union(Adjacency::SOUTH());
        assert(0x80u8 | 0x08u8 == 0x88u8) by (bit_vector);
        assert(0x02u8 | 0x20u8 == 0x22u8) by (bit_vector);
        if walls.contains(west_east) {
            DoorDirection::Horizontal
        } else if walls.contains(north_south) {
            DoorDirection::Vertical
        } else if intersects(walls, west_east) {
            DoorDirection::Horizontal
        } else if intersects(walls, north_south) {
            DoorDirection::Vertical
        } else {
            DoorDirection::Horizontal
        }
    }
}

} // verus!
