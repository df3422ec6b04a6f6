//! The numbering of the middle and top sprites of a wall tile in the
//! tileset: the middle sprites take the numbers from 0 on, the top sprites
//! those after them, and the empty sprite is 0 in both.
use vstd::prelude::*;

verus! {

/// What lies east of a corner of wall.
#[derive(Debug, Clone, Copy, PartialEq, Eq, Hash, Structural)]
pub enum EastDecoration {
    Blank,
    Door,
    StairN,
    StairS,
}

/// What lies south of a corner or a horizontal run of wall.
#[derive(Debug, Clone, Copy, PartialEq, Eq, Hash, Structural)]
pub enum SouthDecoration {
    Blank,
    Door,
    StairN,
}

/// The middle sprite of a tile.
#[derive(Debug, Clone, Copy, PartialEq, Eq, Hash, Structural)]
pub enum MidSprite {
    Empty,
    Corner { east: EastDecoration, south: SouthDecoration },
    Horizontal { south: SouthDecoration },
    Vertical { east: EastDecoration },
    InverseCorner,
    Full,
    StairN,
    StairNFull,
    StairS,
    StairSFull,
    StairE,
    StairEFull,
    StairW,
    StairWFull,
}

/// What lies on top of a corner or a horizontal run of wall.
#[derive(Debug, Clone, Copy, PartialEq, Eq, Hash, Structural)]
pub enum TopDecoration {
    Blank,
    Door,
}

/// What lies east or south-east of the top of a tile.
#[derive(Debug, Clone, Copy, PartialEq, Eq, Hash, Structural)]
pub enum EastTopDecoration {
    Blank,
    EastStairW,
    EastStairWFull,
    SouthEastStairN,
    SouthEastStairW,
    SouthEastStairWFull,
}

/// The top sprite of a tile.
#[derive(Debug, Clone, Copy, PartialEq, Eq, Hash, Structural)]
pub enum TopSprite {
    Empty { east: EastTopDecoration },
    Corner { east: EastTopDecoration, deco: TopDecoration },
    Horizontal { deco: TopDecoration },
    StairN,
    StairNFull,
    StairE,
    StairEFull,
    StairW,
    StairWFull,
}

/// The place of an east decoration in its declaration.
pub open spec fn east_index(e: EastDecoration) -> nat {
    match e {
        EastDecoration::Blank => 0,
        EastDecoration::Door => 1,
        EastDecoration::StairN => 2,
        EastDecoration::StairS => 3,
    }
}

/// The place of a south decoration in its declaration.
pub open spec fn south_index(s: SouthDecoration) -> nat {
    match s {
        SouthDecoration::Blank => 0,
        SouthDecoration::Door => 1,
        SouthDecoration::StairN => 2,
    }
}

/// The place of a top decoration in its declaration.
pub open spec fn deco_index(d: TopDecoration) -> nat {
    match d {
        TopDecoration::Blank => 0,
        TopDecoration::Door => 1,
    }
}

/// The place of an east top decoration in its declaration.
pub open spec fn east_top_index(e: EastTopDecoration) -> nat {
    match e {
        EastTopDecoration::Blank => 0,
        EastTopDecoration::EastStairW => 1,
        EastTopDecoration::EastStairWFull => 2,
        EastTopDecoration::SouthEastStairN => 3,
        EastTopDecoration::SouthEastStairW => 4,
        EastTopDecoration::SouthEastStairWFull => 5,
    }
}

/// The number of a middle sprite: the empty sprite first, then the
/// corners by east and then south decoration, the horizontal and vertical
/// runs, and the rest in declaration order.
pub open spec fn mid_sprite_id(s: MidSprite) -> nat {
    match s {
        MidSprite::Empty => 0,
        MidSprite::Corner { east, south } => 1 + 3 * east_index(east) + south_index(south),
        MidSprite::Horizontal { south } => 13 + south_index(south),
        MidSprite::Vertical { east } => 16 + east_index(east),
        MidSprite::InverseCorner => 20,
        MidSprite::Full => 21,
        MidSprite::StairN => 22,
        MidSprite::StairNFull => 23,
        MidSprite::StairS => 24,
        MidSprite::StairSFull => 25,
        MidSprite::StairE => 26,
        MidSprite::StairEFull => 27,
        MidSprite::StairW => 28,
        MidSprite::StairWFull => 29,
    }
}

/// The number of a top sprite: the empty sprite with nothing east of it is
/// 0, the empty sprite, the corners and the horizontal runs follow the
/// middle sprites by their decorations, then the stairs in declaration
/// order.
pub open spec fn top_sprite_id(s: TopSprite) -> nat {
    match s {
        TopSprite::Empty { east } => if east == EastTopDecoration::Blank {
            0
        } else {
            29 + east_top_index(east)
        },
        TopSprite::Corner { east, deco } => 35 + 2 * east_top_index(east) + deco_index(deco),
        TopSprite::Horizontal { deco } => 47 + deco_index(deco),
        TopSprite::StairN => 49,
        TopSprite::StairNFull => 50,
        TopSprite::StairE => 51,
        TopSprite::StairEFull => 52,
        TopSprite::StairW => 53,
        TopSprite::StairWFull => 54,
    }
}

/// A top sprite mirrored left to right.
pub open spec fn top_flipped(s: TopSprite) -> TopSprite {
    match s {
        TopSprite::StairE => TopSprite::StairW,
        TopSprite::StairW => TopSprite::StairE,
        _ => s,
    }
}

impl MidSprite {
    /// The number of the sprite in the tileset.
    pub fn id(&self) -> (r: u16)
        ensures
            r == mid_sprite_id(*self),
    {
        match self {
            MidSprite::Empty => 0,
            MidSprite::Corner { east: EastDecoration::Blank, south: SouthDecoration::Blank } => 1,
            MidSprite::Corner { east: EastDecoration::Blank, south: SouthDecoration::Door } => 2,
            MidSprite::Corner { east: EastDecoration::Blank, south: SouthDecoration::StairN } => 3,
            MidSprite::Corner { east: EastDecoration::Door, south: SouthDecoration::Blank } => 4,
            MidSprite::Corner { east: EastDecoration::Door, south: SouthDecoration::Door } => 5,
            MidSprite::Corner { east: EastDecoration::Door, south: SouthDecoration::StairN } => 6,
            MidSprite::Corner { east: EastDecoration::StairN, south: SouthDecoration::Blank } => 7,
            MidSprite::Corner { east: EastDecoration::StairN, south: SouthDecoration::Door } => 8,
            MidSprite::Corner { east: EastDecoration::StairN, south: SouthDecoration::StairN } => 9,
            MidSprite::Corner { east: EastDecoration::StairS, south: SouthDecoration::Blank } => 10,
            MidSprite::Corner { east: EastDecoration::StairS, south: SouthDecoration::Door } => 11,
            MidSprite::Corner { east: EastDecoration::StairS, south: SouthDecoration::StairN } => 12,
            MidSprite::Horizontal { south: SouthDecoration::Blank } => 13,
            MidSprite::Horizontal { south: SouthDecoration::Door } => 14,
            MidSprite::Horizontal { south: SouthDecoration::StairN } => 15,
            MidSprite::Vertical { east: EastDecoration::Blank } => 16,
            MidSprite::Vertical { east: EastDecoration::Door } => 17,
            MidSprite::Vertical { east: EastDecoration::StairN } => 18,
            MidSprite::Vertical { east: EastDecoration::StairS } => 19,
            MidSprite::InverseCorner => 20,
            MidSprite::Full => 21,
            MidSprite::StairN => 22,
            MidSprite::StairNFull => 23,
            MidSprite::StairS => 24,
            MidSprite::StairSFull => 25,
            MidSprite::StairE => 26,
            MidSprite::StairEFull => 27,
            MidSprite::StairW => 28,
            MidSprite::StairWFull => 29,
        }
    }
}

impl TopSprite {
    /// The sprite mirrored left to right: a stair running east runs west.
    pub fn flip(&self) -> (r: Self)
        ensures
            r == top_flipped(*self),
    {
        match self {
            TopSprite::StairE => TopSprite::StairW,
            TopSprite::StairW => TopSprite::StairE,
            _ => *self,
        }
    }

    /// The number of the sprite in the tileset.
    pub fn id(&self) -> (r: u16)
        ensures
            r == top_sprite_id(*self),
    {
        match self {
            TopSprite::Empty { east: EastTopDecoration::Blank } => 0,
            TopSprite::Empty { east: EastTopDecoration::EastStairW } => 30,
            TopSprite::Empty { east: EastTopDecoration::EastStairWFull } => 31,
            TopSprite::Empty { east: EastTopDecoration::SouthEastStairN } => 32,
            TopSprite::Empty { east: EastTopDecoration::SouthEastStairW } => 33,
            TopSprite::Empty { east: EastTopDecoration::SouthEastStairWFull } => 34,
            TopSprite::Corner { east: EastTopDecoration::Blank, deco: TopDecoration::Blank } => 35,
            TopSprite::Corner { east: EastTopDecoration::Blank, deco: TopDecoration::Door } => 36,
            TopSprite::Corner { east: EastTopDecoration::EastStairW, deco: TopDecoration::Blank } => 37,
            TopSprite::Corner { east: EastTopDecoration::EastStairW, deco: TopDecoration::Door } => 38,
            TopSprite::Corner {
                east: EastTopDecoration::EastStairWFull,
                deco: TopDecoration::Blank,
            } => 39,
            TopSprite::Corner { east: EastTopDecoration::EastStairWFull, deco: TopDecoration::Door } => 40,
            TopSprite::Corner {
                east: EastTopDecoration::SouthEastStairN,
                deco: TopDecoration::Blank,
            } => 41,
            TopSprite::Corner { east: EastTopDecoration::SouthEastStairN, deco: TopDecoration::Door } => 42,
            TopSprite::Corner {
                east: EastTopDecoration::SouthEastStairW,
                deco: TopDecoration::Blank,
            } => 43,
            TopSprite::Corner { east: EastTopDecoration::SouthEastStairW, deco: TopDecoration::Door } => 44,
            TopSprite::Corner {
                east: EastTopDecoration::SouthEastStairWFull,
                deco: TopDecoration::Blank,
            } => 45,
            TopSprite::Corner {
                east: EastTopDecoration::SouthEastStairWFull,
                deco: TopDecoration::Door,
            } => 46,
            TopSprite::Horizontal { deco: TopDecoration::Blank } => 47,
            TopSprite::Horizontal { deco: TopDecoration::Door } => 48,
            TopSprite::StairN => 49,
            TopSprite::StairNFull => 50,
            TopSprite::StairE => 51,
            TopSprite::StairEFull => 52,
            TopSprite::StairW => 53,
            TopSprite::StairWFull => 54,
        }
    }
}

/// Distinct middle sprites have distinct numbers, all below 30.
pub proof fn lemma_mid_ids_distinct(a: MidSprite, b: MidSprite)
    ensures
        mid_sprite_id(a) < 30,
        mid_sprite_id(a) == mid_sprite_id(b) ==> a == b,
{
}

/// Distinct top sprites have distinct numbers; each is 0, for the empty
/// sprite with nothing east of it, or lies from 30 to 54, after the
/// numbers of the middle sprites.
pub proof fn lemma_top_ids_distinct(a: TopSprite, b: TopSprite)
    ensures
        top_sprite_id(a) == 0 || 30 <= top_sprite_id(a) <= 54,
        top_sprite_id(a) == 0 <==> a == (TopSprite::Empty { east: EastTopDecoration::Blank }),
        top_sprite_id(a) == top_sprite_id(b) ==> a == b,
{
}

/// Mirroring a top sprite twice gives it back.
pub proof fn lemma_top_flip_involution(s: TopSprite)
    ensures
        top_flipped(top_flipped(s)) == s,
{
}

} // verus!
