use wdn::material::{TileMaterial, TileMaterialFlags, TileMoveSpeed};
use wdn::wall::TileVariant as V;
use wdn::wall::{
    get_tile_variant, mid_offsets, resolve_base, resolve_top, top_offset, TileVariant,
    BASE_STAIREFULL, BASE_WALLCORNER, BASE_WALLFULL, BASE_WALLVERTICAL_EASTDOOR, EMPTY,
    TOP_DOOR_SOUTHWALLCORNER, TOP_EMPTY_SOUTHWALLCORNER, TOP_STAIRSFULL_SOUTHSTAIRN,
};

#[test]
fn base_offsets() {
    assert_eq!(resolve_base(V::Empty, V::Wall, V::Wall, V::Wall), EMPTY);
    assert_eq!(resolve_base(V::Door, V::Wall, V::Wall, V::Wall), EMPTY);
    assert_eq!(resolve_base(V::Wall, V::Empty, V::Empty, V::Empty), BASE_WALLCORNER);
    assert_eq!(resolve_base(V::Wall, V::Wall, V::Wall, V::Wall), BASE_WALLFULL);
    assert_eq!(resolve_base(V::Wall, V::Door, V::Empty, V::Wall), BASE_WALLVERTICAL_EASTDOOR);
    assert_eq!(resolve_base(V::StairE, V::Empty, V::Empty, V::Wall), BASE_STAIREFULL);
}

#[test]
fn top_offsets() {
    assert_eq!(resolve_top(V::Wall, V::Empty, V::Empty, V::Empty), EMPTY);
    assert_eq!(resolve_top(V::Empty, V::Empty, V::Empty, V::Wall), TOP_EMPTY_SOUTHWALLCORNER);
    assert_eq!(resolve_top(V::Door, V::Door, V::Door, V::Wall), TOP_DOOR_SOUTHWALLCORNER);
    assert_eq!(resolve_top(V::StairS, V::Wall, V::Empty, V::StairN), TOP_STAIRSFULL_SOUTHSTAIRN);
}

#[test]
fn halves_of_a_tile() {
    // A wall with a wall to the west: the mirrored left half sees it as east.
    let (left, right) = mid_offsets(V::Wall, V::Wall, V::Empty, V::Empty, V::Empty, V::Empty);
    assert_eq!(left, resolve_base(V::Wall, V::Wall, V::Empty, V::Empty));
    assert_eq!(right, BASE_WALLCORNER);
    // East stairs to the south become west stairs in the mirrored half.
    let (left, right) = top_offset(V::Wall, V::Empty, V::Empty, V::StairE, V::Empty, V::Empty);
    assert_eq!(left, resolve_top(V::Wall, V::Empty, V::Empty, V::StairW));
    assert_eq!(right, resolve_top(V::Wall, V::Empty, V::Empty, V::StairE));
    assert_ne!(left, right);
}

#[test]
fn tile_variants_of_materials() {
    assert_eq!(get_tile_variant(None), TileVariant::Empty);
    assert_eq!(get_tile_variant(Some(TileMaterial::EMPTY())), TileVariant::Empty);
    assert_eq!(get_tile_variant(Some(TileMaterial::wall(3))), TileVariant::Wall);
    assert_eq!(
        get_tile_variant(Some(TileMaterial::door(3, TileMoveSpeed::Slow))),
        TileVariant::Door
    );
    let stairs = TileMaterial::stairs(1, TileMoveSpeed::Medium);
    assert_eq!(get_tile_variant(Some(stairs)), TileVariant::StairN);
    let mask = TileMaterialFlags::from_bits_retain(TileMaterialFlags::STAIR_DIRECTION_MASK);
    for (direction, variant) in [
        (TileMaterialFlags::STAIR_DIRECTION_EAST, TileVariant::StairE),
        (TileMaterialFlags::STAIR_DIRECTION_SOUTH, TileVariant::StairS),
        (TileMaterialFlags::STAIR_DIRECTION_WEST, TileVariant::StairW),
        (TileMaterialFlags::STAIR_DIRECTION_NORTH, TileVariant::StairN),
    ] {
        let material = stairs.with_flags(mask, TileMaterialFlags::from_bits_retain(direction));
        assert_eq!(get_tile_variant(Some(material)), variant);
    }
}

#[test]
fn wall_variant_flip() {
    assert_eq!(TileVariant::StairE.flip(), TileVariant::StairW);
    assert_eq!(TileVariant::StairW.flip(), TileVariant::StairE);
    assert_eq!(TileVariant::Door.flip(), TileVariant::Door);
}
