use wdn::generate::{MacroTile, MAP_SIZE};
use wdn::material::TileKind;
use wdn::worldmap::{desired_tiles, WORLD_SIZE};

fn grid(fill: MacroTile) -> Vec<Vec<MacroTile>> {
    vec![vec![fill; MAP_SIZE]; MAP_SIZE]
}

fn at(tiles: &[TileKind], x: usize, y: usize) -> TileKind {
    tiles[y * WORLD_SIZE + x]
}

fn border_door(x: usize, y: usize) -> bool {
    let mut hash = (x as u64).wrapping_mul(0x9E3779B97F4A7C15);
    hash ^= (y as u64).wrapping_mul(0xC2B2AE3D27D4EB4F);
    hash ^= hash >> 33;
    hash = hash.wrapping_mul(0xFF51AFD7ED558CCD);
    hash ^= hash >> 33;
    (hash % 100) < 5
}

#[test]
fn an_outside_grid_paints_nothing() {
    let tiles = desired_tiles(&grid(MacroTile::Outside));
    assert_eq!(tiles.len(), WORLD_SIZE * WORLD_SIZE);
    assert!(tiles.iter().all(|&t| t == TileKind::Empty));
}

#[test]
fn an_inside_grid_is_walled_off_from_the_border() {
    let tiles = desired_tiles(&grid(MacroTile::Inside));
    for y in 4..=508 {
        let expected = if y % 4 == 2 && border_door(4, y) {
            TileKind::Door
        } else {
            TileKind::Wall
        };
        assert_eq!(at(&tiles, 4, y), expected, "west edge at {y}");
        let expected = if y % 4 == 2 && border_door(508, y) {
            TileKind::Door
        } else {
            TileKind::Wall
        };
        assert_eq!(at(&tiles, 508, y), expected, "east edge at {y}");
    }
    for x in 5..508 {
        if x % 4 != 2 {
            assert_eq!(at(&tiles, x, 4), TileKind::Wall);
            assert_eq!(at(&tiles, x, 508), TileKind::Wall);
        }
    }
    assert_eq!(at(&tiles, 0, 0), TileKind::Empty);
    assert_eq!(at(&tiles, 3, 100), TileKind::Empty);
    assert_eq!(at(&tiles, 100, 100), TileKind::Empty);
    assert_eq!(at(&tiles, 511, 511), TileKind::Empty);
    // Some border tile gets a door.
    assert!(tiles.iter().any(|&t| t == TileKind::Door));
}

#[test]
fn a_row_of_cells_is_walled_with_two_doors_onto_its_side() {
    let mut g = grid(MacroTile::Inside);
    g[10][20] = MacroTile::CellsNorth;
    let tiles = desired_tiles(&g);
    // The macro tile covers world columns 84..=88 and rows 44..=48.
    for y in 44..=48 {
        assert_eq!(at(&tiles, 84, y), TileKind::Wall);
        assert_eq!(at(&tiles, 88, y), TileKind::Wall);
        assert_eq!(at(&tiles, 86, y), TileKind::Wall);
    }
    for x in 84..=88 {
        assert_eq!(at(&tiles, x, 44), TileKind::Wall);
    }
    assert_eq!(at(&tiles, 84, 48), TileKind::Wall);
    assert_eq!(at(&tiles, 85, 48), TileKind::Door);
    assert_eq!(at(&tiles, 86, 48), TileKind::Wall);
    assert_eq!(at(&tiles, 87, 48), TileKind::Door);
    assert_eq!(at(&tiles, 88, 48), TileKind::Wall);
    assert_eq!(at(&tiles, 85, 46), TileKind::Empty);
    assert_eq!(at(&tiles, 87, 46), TileKind::Empty);
    assert_eq!(at(&tiles, 83, 46), TileKind::Empty);
}
