use wdn::generate::{
    generate_random_tile_grid, mutate_and_regenerate_tile_grid, starting_possibilities, MacroTile,
    ALL_TILE_MASK, GRID_MUTATION_TILES, MAP_SIZE,
};

fn assert_respects(grid: &Vec<Vec<MacroTile>>) {
    assert_eq!(grid.len(), MAP_SIZE);
    for y in 0..MAP_SIZE {
        assert_eq!(grid[y].len(), MAP_SIZE);
        for x in 0..MAP_SIZE {
            let tile = grid[y][x];

            if y > 0 {
                assert!(tile.allowed_north(grid[y - 1][x]));
            }
            if y + 1 < MAP_SIZE {
                assert!(tile.allowed_south(grid[y + 1][x]));
            }
            if x + 1 < MAP_SIZE {
                assert!(tile.allowed_east(grid[y][x + 1]));
            }
            if x > 0 {
                assert!(tile.allowed_west(grid[y][x - 1]));
            }
        }
    }
}

#[test]
fn generated_grid_respects_adjacency_constraints() {
    let grid = generate_random_tile_grid().unwrap();
    assert_respects(&grid);
}

#[test]
fn mutated_grid_respects_adjacency_constraints() {
    let mut grid = generate_random_tile_grid().unwrap();
    assert!(mutate_and_regenerate_tile_grid(&mut grid, GRID_MUTATION_TILES));
    assert_respects(&grid);
}

#[test]
fn rows_of_cells_open_onto_the_inside() {
    assert!(MacroTile::CellsNorth.allowed_north(MacroTile::Inside));
    assert!(!MacroTile::CellsNorth.allowed_north(MacroTile::Outside));
    assert!(!MacroTile::CellsNorth.allowed_north(MacroTile::CellsNorth));
    assert!(MacroTile::Inside.allowed_north(MacroTile::CellsSouth));
    assert!(!MacroTile::Outside.allowed_north(MacroTile::CellsSouth));
    assert!(MacroTile::Outside.allowed_north(MacroTile::CellsEast));
    assert!(MacroTile::CellsSouth.allowed_south(MacroTile::Inside));
    assert!(!MacroTile::CellsSouth.allowed_south(MacroTile::Outside));
    assert!(MacroTile::Inside.allowed_south(MacroTile::CellsNorth));
    assert!(MacroTile::CellsEast.allowed_east(MacroTile::Inside));
    assert!(!MacroTile::CellsEast.allowed_east(MacroTile::CellsWest));
    assert!(MacroTile::Inside.allowed_east(MacroTile::CellsWest));
    assert!(MacroTile::CellsWest.allowed_west(MacroTile::Inside));
    assert!(!MacroTile::Outside.allowed_west(MacroTile::CellsEast));
    assert!(MacroTile::Inside.allowed_west(MacroTile::CellsEast));
    assert!(MacroTile::Outside.allowed_west(MacroTile::Outside));
}

#[test]
fn mutating_no_cells_gives_the_grid_back() {
    let grid = generate_random_tile_grid().unwrap();
    let mut mutated = grid.clone();
    assert!(mutate_and_regenerate_tile_grid(&mut mutated, 0));
    assert_eq!(mutated, grid);

    let mut inside = vec![vec![MacroTile::Inside; MAP_SIZE]; MAP_SIZE];
    assert!(mutate_and_regenerate_tile_grid(&mut inside, 0));
    assert_eq!(inside, vec![vec![MacroTile::Inside; MAP_SIZE]; MAP_SIZE]);
}

#[test]
fn a_mutation_starts_from_the_kept_tiles_and_the_drawn_cells() {
    let mut kinds = vec![vec![MacroTile::Inside; MAP_SIZE]; MAP_SIZE];
    kinds[1][0] = MacroTile::CellsNorth;
    kinds[2][5] = MacroTile::CellsWest;
    let masks = starting_possibilities(&kinds, &vec![0, 127, 0]);
    assert_eq!(masks.len(), MAP_SIZE * MAP_SIZE);
    assert_eq!(masks[0], ALL_TILE_MASK);
    assert_eq!(masks[127], ALL_TILE_MASK);
    assert_eq!(masks[1], 0x02);
    assert_eq!(masks[MAP_SIZE], 0x04);
    assert_eq!(masks[2 * MAP_SIZE + 5], 0x20);
    assert_eq!(masks.iter().filter(|&&m| m == ALL_TILE_MASK).count(), 2);

    let unchanged = starting_possibilities(&kinds, &vec![]);
    assert_eq!(unchanged[0], 0x02);
    assert_eq!(unchanged[MAP_SIZE], 0x04);
}
