use std::collections::HashSet;

use wdn::ids::{
    EastDecoration, EastTopDecoration, MidSprite, SouthDecoration, TopDecoration, TopSprite,
};

const EAST: [EastDecoration; 4] = [
    EastDecoration::Blank,
    EastDecoration::Door,
    EastDecoration::StairN,
    EastDecoration::StairS,
];
const SOUTH: [SouthDecoration; 3] = [
    SouthDecoration::Blank,
    SouthDecoration::Door,
    SouthDecoration::StairN,
];
const EAST_TOP: [EastTopDecoration; 6] = [
    EastTopDecoration::Blank,
    EastTopDecoration::EastStairW,
    EastTopDecoration::EastStairWFull,
    EastTopDecoration::SouthEastStairN,
    EastTopDecoration::SouthEastStairW,
    EastTopDecoration::SouthEastStairWFull,
];
const DECO: [TopDecoration; 2] = [TopDecoration::Blank, TopDecoration::Door];

fn all_mid() -> Vec<MidSprite> {
    let mut v = vec![MidSprite::Empty];
    for east in EAST {
        for south in SOUTH {
            v.push(MidSprite::Corner { east, south });
        }
    }
    for south in SOUTH {
        v.push(MidSprite::Horizontal { south });
    }
    for east in EAST {
        v.push(MidSprite::Vertical { east });
    }
    v.extend([
        MidSprite::InverseCorner,
        MidSprite::Full,
        MidSprite::StairN,
        MidSprite::StairNFull,
        MidSprite::StairS,
        MidSprite::StairSFull,
        MidSprite::StairE,
        MidSprite::StairEFull,
        MidSprite::StairW,
        MidSprite::StairWFull,
    ]);
    v
}

fn all_top() -> Vec<TopSprite> {
    let mut v = Vec::new();
    for east in EAST_TOP {
        v.push(TopSprite::Empty { east });
    }
    for east in EAST_TOP {
        for deco in DECO {
            v.push(TopSprite::Corner { east, deco });
        }
    }
    for deco in DECO {
        v.push(TopSprite::Horizontal { deco });
    }
    v.extend([
        TopSprite::StairN,
        TopSprite::StairNFull,
        TopSprite::StairE,
        TopSprite::StairEFull,
        TopSprite::StairW,
        TopSprite::StairWFull,
    ]);
    v
}

#[test]
fn middle_sprites_are_numbered_from_zero() {
    let ids: Vec<u16> = all_mid().iter().map(|s| s.id()).collect();
    assert_eq!(ids, (0..30).collect::<Vec<u16>>());
    assert_eq!(
        MidSprite::Corner {
            east: EastDecoration::StairN,
            south: SouthDecoration::Door
        }
        .id(),
        8
    );
    assert_eq!(MidSprite::Vertical { east: EastDecoration::StairS }.id(), 19);
}

#[test]
fn top_sprites_follow_the_middle_sprites() {
    let ids: Vec<u16> = all_top().iter().map(|s| s.id()).collect();
    let mut expected = vec![0];
    expected.extend(30..55);
    assert_eq!(ids, expected);
    assert_eq!(
        TopSprite::Corner {
            east: EastTopDecoration::SouthEastStairN,
            deco: TopDecoration::Door
        }
        .id(),
        42
    );
    let distinct: HashSet<u16> = ids.iter().copied().collect();
    assert_eq!(distinct.len(), ids.len());
}

#[test]
fn flipping_swaps_east_and_west_stairs() {
    assert_eq!(TopSprite::StairE.flip(), TopSprite::StairW);
    assert_eq!(TopSprite::StairW.flip(), TopSprite::StairE);
    assert_eq!(TopSprite::StairN.flip(), TopSprite::StairN);
    for s in all_top() {
        assert_eq!(s.flip().flip(), s);
    }
}
