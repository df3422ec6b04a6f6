use wdn::render::Pixels;
use wdn::tileset::{copy_tiles_to_output, tileset, TILE_HEIGHT, TILE_WIDTH};

/// An image whose pixel at column `x`, row `y` has the bytes
/// `[tag, x, y, 255]`.
fn image(tag: u8, width: usize, height: usize) -> Pixels {
    let mut data = Vec::with_capacity(width * height * 4);
    for y in 0..height {
        for x in 0..width {
            data.extend_from_slice(&[tag, x as u8, y as u8, 255]);
        }
    }
    Pixels {
        width,
        height,
        data,
    }
}

fn pixel(p: &Pixels, x: usize, y: usize) -> [u8; 4] {
    let i = (y * p.width + x) * 4;
    [p.data[i], p.data[i + 1], p.data[i + 2], p.data[i + 3]]
}

#[test]
fn copies_whole_tiles_row_by_row() {
    // Two tiles across, one down; the partial column at the right is left out.
    let source = image(7, 2 * TILE_WIDTH + 5, TILE_HEIGHT + 3);
    let mut output = Pixels {
        width: TILE_WIDTH + 2,
        height: 4 * TILE_HEIGHT,
        data: vec![1; (TILE_WIDTH + 2) * 4 * TILE_HEIGHT * 4],
    };
    let mut current = 1u32;
    copy_tiles_to_output(&source, &mut output, &mut current);
    assert_eq!(current, 3);
    // Tile 1 of the output is the first tile of the source.
    assert_eq!(pixel(&output, 0, TILE_HEIGHT), [7, 0, 0, 255]);
    assert_eq!(pixel(&output, 31, TILE_HEIGHT + 63), [7, 31, 63, 255]);
    // Tile 2 is the second tile across.
    assert_eq!(pixel(&output, 0, 2 * TILE_HEIGHT), [7, 32, 0, 255]);
    assert_eq!(pixel(&output, 5, 2 * TILE_HEIGHT + 9), [7, 37, 9, 255]);
    // Tile 0, tile 3 and the columns right of the tiles stay as they were.
    assert_eq!(pixel(&output, 0, 0), [1, 1, 1, 1]);
    assert_eq!(pixel(&output, 0, 3 * TILE_HEIGHT), [1, 1, 1, 1]);
    assert_eq!(pixel(&output, TILE_WIDTH, TILE_HEIGHT), [1, 1, 1, 1]);
}

#[test]
fn an_image_smaller_than_a_tile_copies_nothing() {
    let source = image(3, TILE_WIDTH - 1, TILE_HEIGHT);
    let mut output = Pixels {
        width: 0,
        height: 0,
        data: Vec::new(),
    };
    let mut current = 5u32;
    copy_tiles_to_output(&source, &mut output, &mut current);
    assert_eq!(current, 5);
    assert!(output.data.is_empty());
}

#[test]
fn stacks_the_tiles_of_each_image_in_turn() {
    let first = image(1, 2 * TILE_WIDTH, TILE_HEIGHT);
    let second = image(2, TILE_WIDTH, 2 * TILE_HEIGHT);
    let out = tileset(&vec![first, second]);
    assert_eq!(out.width, TILE_WIDTH);
    assert_eq!(out.height, 4 * TILE_HEIGHT);
    assert_eq!(out.data.len(), TILE_WIDTH * 4 * TILE_HEIGHT * 4);
    assert_eq!(pixel(&out, 3, 4), [1, 3, 4, 255]);
    assert_eq!(pixel(&out, 3, TILE_HEIGHT + 4), [1, 35, 4, 255]);
    assert_eq!(pixel(&out, 3, 2 * TILE_HEIGHT + 4), [2, 3, 4, 255]);
    assert_eq!(pixel(&out, 3, 3 * TILE_HEIGHT + 4), [2, 3, 68, 255]);
}

#[test]
fn no_images_make_an_empty_tileset() {
    let out = tileset(&Vec::new());
    assert_eq!(out.width, TILE_WIDTH);
    assert_eq!(out.height, 0);
    assert!(out.data.is_empty());
}
