use wdn::sprite::TileVariant::{Door, Empty, StairE, StairN, StairS, StairW, Wall};
use wdn::sprite::{
    resolve_sprites, BaseSprite, BaseSpriteCenter, BaseSpriteEast, BaseSpriteSouth, Model,
    TileVariant, TopSprite, TopSpriteCenter, TopSpriteEast, TopSpriteSouth, TopSpriteSouthEast,
    WallModel,
};

const BASE_CENTERS: [BaseSpriteCenter; 14] = [
    BaseSpriteCenter::Blank,
    BaseSpriteCenter::WallCorner,
    BaseSpriteCenter::WallVertical,
    BaseSpriteCenter::WallHorizontal,
    BaseSpriteCenter::WallInverseCorner,
    BaseSpriteCenter::WallFull,
    BaseSpriteCenter::StairN,
    BaseSpriteCenter::StairNFull,
    BaseSpriteCenter::StairS,
    BaseSpriteCenter::StairSFull,
    BaseSpriteCenter::StairE,
    BaseSpriteCenter::StairEFull,
    BaseSpriteCenter::StairW,
    BaseSpriteCenter::StairWFull,
];
const BASE_SOUTHS: [BaseSpriteSouth; 2] = [BaseSpriteSouth::Blank, BaseSpriteSouth::Door];
const BASE_EASTS: [BaseSpriteEast; 4] = [
    BaseSpriteEast::Blank,
    BaseSpriteEast::Door,
    BaseSpriteEast::StairN,
    BaseSpriteEast::StairS,
];

const TOP_CENTERS: [TopSpriteCenter; 9] = [
    TopSpriteCenter::Blank,
    TopSpriteCenter::WallCorner,
    TopSpriteCenter::WallVertical,
    TopSpriteCenter::WallHorizontal,
    TopSpriteCenter::WallInverseCorner,
    TopSpriteCenter::WallFull,
    TopSpriteCenter::Door,
    TopSpriteCenter::StairS,
    TopSpriteCenter::StairSFull,
];
const TOP_SOUTHS: [TopSpriteSouth; 10] = [
    TopSpriteSouth::Blank,
    TopSpriteSouth::Door,
    TopSpriteSouth::WallCorner,
    TopSpriteSouth::WallHorizontal,
    TopSpriteSouth::StairN,
    TopSpriteSouth::StairNFull,
    TopSpriteSouth::StairE,
    TopSpriteSouth::StairEFull,
    TopSpriteSouth::StairW,
    TopSpriteSouth::StairWFull,
];
const TOP_SOUTH_EASTS: [TopSpriteSouthEast; 2] =
    [TopSpriteSouthEast::Blank, TopSpriteSouthEast::StairN];
const TOP_EASTS: [TopSpriteEast; 3] = [
    TopSpriteEast::Blank,
    TopSpriteEast::Door,
    TopSpriteEast::StairS,
];

/// `normalize()` must reach its fixed point in a single match, i.e. re-normalizing an
/// already-normalized sprite must be a no-op, for every possible sprite.
#[test]
fn base_sprite_normalize_is_a_fixed_point_in_one_step() {
    for &center in &BASE_CENTERS {
        for &south in &BASE_SOUTHS {
            for &east in &BASE_EASTS {
                let sprite = BaseSprite {
                    center,
                    south,
                    east,
                };
                let normalized = sprite.normalize();
                assert_eq!(
                    normalized.normalize(),
                    normalized,
                    "normalize() is not a fixed point for {sprite:?} -> {normalized:?}"
                );
            }
        }
    }
}

/// `normalize()` must reach its fixed point in a single match, i.e. re-normalizing an
/// already-normalized sprite must be a no-op, for every possible sprite.
#[test]
fn top_sprite_normalize_is_a_fixed_point_in_one_step() {
    for &center in &TOP_CENTERS {
        for &south in &TOP_SOUTHS {
            for &south_east in &TOP_SOUTH_EASTS {
                for &east in &TOP_EASTS {
                    let sprite = TopSprite {
                        center,
                        south,
                        south_east,
                        east,
                    };
                    let normalized = sprite.normalize();
                    assert_eq!(
                        normalized.normalize(),
                        normalized,
                        "normalize() is not a fixed point for {sprite:?} -> {normalized:?}"
                    );
                }
            }
        }
    }
}

#[test]
fn sprites_do_not_depend_on_north_neighbours() {
    for center in TileVariant::values() {
        for east in TileVariant::values() {
            for south_east in TileVariant::values() {
                for south in TileVariant::values() {
                    let expected = resolve_sprites(
                        center,
                        TileVariant::Empty,
                        TileVariant::Empty,
                        east,
                        south_east,
                        south,
                    );
                    for north in TileVariant::values() {
                        for north_east in TileVariant::values() {
                            assert_eq!(
                                resolve_sprites(center, north, north_east, east, south_east, south),
                                expected
                            );
                        }
                    }
                }
            }
        }
    }
}

#[test]
fn resolved_sprites_are_normalized() {
    for center in TileVariant::values() {
        for east in TileVariant::values() {
            for south_east in TileVariant::values() {
                for south in TileVariant::values() {
                    let (base, top) = resolve_sprites(
                        center,
                        TileVariant::Wall,
                        TileVariant::Door,
                        east,
                        south_east,
                        south,
                    );
                    assert_eq!(base.normalize(), base);
                    assert_eq!(top.normalize(), top);
                }
            }
        }
    }
}

#[test]
fn flips_are_involutions() {
    for v in TileVariant::values() {
        assert_eq!(v.flip().flip(), v);
    }
    assert_eq!(TileVariant::StairE.flip(), TileVariant::StairW);
    assert_eq!(TileVariant::StairN.flip(), TileVariant::StairN);
    assert_eq!(Model::StairENorth.flip(), Model::StairWNorth);
    assert_eq!(Model::StairWNorthSouth.flip(), Model::StairENorthSouth);
    assert_eq!(Model::StairN.flip(), Model::StairN);
}

#[test]
fn isolated_wall() {
    let model = Model::resolve(
        TileVariant::Wall,
        TileVariant::Empty,
        TileVariant::Empty,
        TileVariant::Empty,
        TileVariant::Empty,
        TileVariant::Empty,
    );
    assert_eq!(
        model,
        Model::Wall {
            north: WallModel::Corner,
            south: WallModel::Corner
        }
    );
    let (base, top) = resolve_sprites(
        TileVariant::Wall,
        TileVariant::Empty,
        TileVariant::Empty,
        TileVariant::Empty,
        TileVariant::Empty,
        TileVariant::Empty,
    );
    assert_eq!(
        base,
        BaseSprite {
            center: BaseSpriteCenter::WallCorner,
            south: BaseSpriteSouth::Blank,
            east: BaseSpriteEast::Blank,
        }
    );
    // A lone corner draws nothing on top.
    assert_eq!(top, TopSprite::EMPTY());
    assert_eq!(base.name(), "WallCorner");
}

#[test]
fn wall_models() {
    let resolve = |north, north_east, east, south_east, south| {
        Model::resolve(TileVariant::Wall, north, north_east, east, south_east, south)
    };
    assert_eq!(
        resolve(Wall, Wall, Wall, Wall, Wall),
        Model::Wall {
            north: WallModel::Full,
            south: WallModel::Full
        }
    );
    assert_eq!(
        resolve(Wall, Empty, Wall, Empty, Wall),
        Model::Wall {
            north: WallModel::InverseCorner,
            south: WallModel::InverseCorner
        }
    );
    assert_eq!(
        resolve(StairS, Empty, Empty, Empty, StairN),
        Model::Wall {
            north: WallModel::Vertical,
            south: WallModel::Vertical
        }
    );
    assert_eq!(
        resolve(Empty, Empty, StairW, Empty, Empty),
        Model::Wall {
            north: WallModel::Horizontal,
            south: WallModel::Horizontal
        }
    );
}

#[test]
fn door_and_stair_models() {
    assert_eq!(
        Model::resolve(Door, Empty, Empty, Wall, Empty, Empty),
        Model::DoorHorizontalFull
    );
    assert_eq!(
        Model::resolve(Door, Wall, Empty, Empty, Empty, Wall),
        Model::DoorVerticalNorthSouth
    );
    assert_eq!(
        Model::resolve(Door, Wall, Empty, Empty, Empty, Empty),
        Model::DoorVerticalNorth
    );
    assert_eq!(
        Model::resolve(Door, Empty, Empty, Empty, Empty, Wall),
        Model::DoorVerticalSouth
    );
    assert_eq!(
        Model::resolve(Door, Empty, Empty, Empty, Empty, Empty),
        Model::DoorVertical
    );
    assert_eq!(
        Model::resolve(StairN, Empty, Empty, StairN, Empty, Empty),
        Model::StairNFull
    );
    assert_eq!(
        Model::resolve(StairS, Empty, Empty, Door, Empty, Empty),
        Model::StairS
    );
    assert_eq!(
        Model::resolve(StairE, StairE, Empty, Empty, Empty, Wall),
        Model::StairENorthSouth
    );
    assert_eq!(
        Model::resolve(StairW, Empty, Empty, Empty, Empty, StairW),
        Model::StairWSouth
    );
    assert_eq!(Model::resolve(Empty, Wall, Wall, Wall, Wall, Wall), Model::Empty);
}

#[test]
fn model_sprite_parts() {
    let wall = Model::Wall {
        north: WallModel::Vertical,
        south: WallModel::InverseCorner,
    };
    assert_eq!(wall.center_base_sprite(), BaseSpriteCenter::WallInverseCorner);
    assert_eq!(wall.center_top_sprite(), TopSpriteCenter::WallInverseCorner);
    assert_eq!(wall.north_top_sprite(), TopSpriteSouth::WallCorner);
    assert_eq!(wall.north_base_sprite(), BaseSpriteSouth::Blank);
    assert_eq!(wall.east_base_sprite(), BaseSpriteEast::Blank);
    assert_eq!(Model::DoorVerticalNorth.north_base_sprite(), BaseSpriteSouth::Door);
    assert_eq!(Model::DoorVerticalNorth.north_top_sprite(), TopSpriteSouth::Door);
    assert_eq!(Model::DoorVerticalSouth.center_top_sprite(), TopSpriteCenter::Door);
    assert_eq!(Model::DoorHorizontalFull.east_base_sprite(), BaseSpriteEast::Door);
    assert_eq!(Model::DoorHorizontalFull.east_top_sprite(), TopSpriteEast::Door);
    assert_eq!(Model::StairNFull.north_east_top_sprite(), TopSpriteSouthEast::StairN);
    assert_eq!(Model::StairSFull.east_top_sprite(), TopSpriteEast::StairS);
    assert_eq!(Model::StairESouth.center_base_sprite(), BaseSpriteCenter::StairEFull);
    assert_eq!(Model::StairWNorth.north_top_sprite(), TopSpriteSouth::StairWFull);
}

#[test]
fn normalize_rules() {
    let base = BaseSprite {
        center: BaseSpriteCenter::StairNFull,
        south: BaseSpriteSouth::Door,
        east: BaseSpriteEast::StairN,
    };
    assert_eq!(
        base.normalize(),
        BaseSprite {
            center: BaseSpriteCenter::StairNFull,
            south: BaseSpriteSouth::Door,
            east: BaseSpriteEast::Blank,
        }
    );
    let kept = BaseSprite {
        center: BaseSpriteCenter::StairNFull,
        south: BaseSpriteSouth::Blank,
        east: BaseSpriteEast::StairS,
    };
    assert_eq!(kept.normalize(), kept);

    let top = TopSprite {
        center: TopSpriteCenter::WallCorner,
        south: TopSpriteSouth::StairEFull,
        south_east: TopSpriteSouthEast::Blank,
        east: TopSpriteEast::StairS,
    };
    assert_eq!(
        top.normalize(),
        TopSprite {
            south: TopSpriteSouth::StairEFull,
            ..TopSprite::EMPTY()
        }
    );
    let both = TopSprite {
        center: TopSpriteCenter::StairSFull,
        south: TopSpriteSouth::StairNFull,
        south_east: TopSpriteSouthEast::StairN,
        east: TopSpriteEast::StairS,
    };
    assert_eq!(
        both.normalize(),
        TopSprite {
            center: TopSpriteCenter::StairSFull,
            south: TopSpriteSouth::StairNFull,
            south_east: TopSpriteSouthEast::Blank,
            east: TopSpriteEast::Blank,
        }
    );
}

#[test]
fn resolve_matches_resolve_sprites() {
    let (base, top) = resolve_sprites(Wall, Empty, Empty, Door, Wall, Wall);
    assert_eq!(BaseSprite::resolve(Wall, Empty, Empty, Door, Wall, Wall), base);
    assert_eq!(TopSprite::resolve(Wall, Empty, Empty, Door, Wall, Wall), top);
}

#[test]
fn sprite_names() {
    let base = BaseSprite {
        center: BaseSpriteCenter::WallFull,
        south: BaseSpriteSouth::Door,
        east: BaseSpriteEast::StairS,
    };
    assert_eq!(base.name(), "WallFull_EastStairS_SouthDoor");
    assert_eq!(BaseSprite::EMPTY().name(), "Empty");
    let top = TopSprite {
        center: TopSpriteCenter::Door,
        south: TopSpriteSouth::WallHorizontal,
        south_east: TopSpriteSouthEast::StairN,
        east: TopSpriteEast::Door,
    };
    assert_eq!(
        top.name(),
        "Door_SouthWallHorizontal_SouthEastStairN_EastDoor"
    );
}

#[test]
fn tile_variant_values() {
    let values = TileVariant::values();
    assert_eq!(values.len(), 7);
    assert_eq!(values[0], TileVariant::Empty);
    assert_eq!(values[6], TileVariant::StairW);
}
