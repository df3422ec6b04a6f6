use wdn::render::{render_to_pixmap, tile_pixels, visual_duplicates, Pixels};

#[test]
fn renders_pixels() {
    let svg = "<svg xmlns=\"http://www.w3.org/2000/svg\" width=\"4\" height=\"2\">\
<rect width=\"4\" height=\"2\" fill=\"#ff0000\"/></svg>";
    let p = render_to_pixmap(svg).unwrap();
    assert_eq!(p.width, 4);
    assert_eq!(p.height, 2);
    assert_eq!(p.data.len(), 4 * 4 * 2);
    assert_eq!(&p.data[0..4], &[255, 0, 0, 255]);
    assert!(render_to_pixmap("not svg").is_none());
}

/// A sheet one row of tiles high whose tiles are filled with the given
/// bytes.
fn sheet(fills: &[u8]) -> Pixels {
    let width = 16 * 200;
    let height = 400;
    let mut data = vec![0u8; width * height * 4];
    for (tile, &fill) in fills.iter().enumerate() {
        for row in 0..400 {
            let start = row * width * 4 + tile * 800;
            for b in &mut data[start..start + 800] {
                *b = fill;
            }
        }
    }
    Pixels {
        width,
        height,
        data,
    }
}

#[test]
fn tile_pixels_are_read_row_by_row() {
    let mut p = sheet(&[1, 2, 3]);
    // Mark the first pixel of the second row of tile 1.
    p.data[16 * 200 * 4 + 800] = 9;
    let t = tile_pixels(&p, 1);
    assert_eq!(t.len(), 400 * 800);
    assert_eq!(t[0], 2);
    assert_eq!(t[800], 9);
    assert_eq!(t[801], 2);
}

#[test]
fn duplicates_are_grouped_in_order() {
    let p = sheet(&[5, 6, 5, 7, 6, 5]);
    assert_eq!(visual_duplicates(&p, 6, 0), vec![vec![0, 2, 5], vec![1, 4]]);
    // Offsets count from the first tile examined.
    assert_eq!(visual_duplicates(&p, 4, 1), vec![vec![0, 3]]);
    assert!(visual_duplicates(&p, 2, 0).is_empty());
}
