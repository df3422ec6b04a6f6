use wdn::material::TileKind;
use wdn::packed::{pack_base_tile, PackedTileData, FLIP_X};

#[test]
fn packing_round_trips() {
    let p = PackedTileData::new(21, 3, true);
    assert_eq!(p.index(), 21);
    assert_eq!(p.depth(), 3);
    assert!(p.flip_x());
    let q = PackedTileData::new(21, 3, false);
    assert_eq!(q.index(), 21);
    assert!(!q.flip_x());
    assert_ne!(p, q);
}

#[test]
fn the_top_bit_of_an_index_reads_as_the_flag() {
    let p = PackedTileData::new(FLIP_X | 5, 0, false);
    assert_eq!(p.index(), 5);
    assert!(p.flip_x());
}

#[test]
fn base_tiles_pack_by_kind() {
    for (kind, offset) in [
        (TileKind::Empty, 1),
        (TileKind::Stairs, 1),
        (TileKind::Wall, 2),
        (TileKind::Door, 2),
    ] {
        let [left, right] = pack_base_tile(kind);
        assert_eq!((left.index(), left.depth(), left.flip_x()), (offset, 0, false));
        assert_eq!(left, right);
    }
}
