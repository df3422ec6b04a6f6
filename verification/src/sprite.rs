//! Resolution of a tile's base and top sprites from the kinds of the tiles
//! around it.
use vstd::prelude::*;

verus! {

/// The kind of a tile as far as sprite selection is concerned.
#[derive(Hash, Eq, PartialEq, Clone, Copy, Debug, Structural)]
pub enum TileVariant {
    Empty,
    Wall,
    Door,
    StairN,
    StairS,
    StairE,
    StairW,
}

/// The shape of a tile once its neighbours are known.
#[derive(Hash, Eq, PartialEq, Clone, Copy, Debug, Structural)]
pub enum Model {
    Empty,
    Wall { north: WallModel, south: WallModel },
    DoorHorizontal,
    DoorHorizontalFull,
    DoorVertical,
    DoorVerticalNorth,
    DoorVerticalSouth,
    DoorVerticalNorthSouth,
    StairN,
    StairNFull,
    StairS,
    StairSFull,
    StairE,
    StairENorth,
    StairESouth,
    StairENorthSouth,
    StairW,
    StairWNorth,
    StairWSouth,
    StairWNorthSouth,
}

/// The shape of one half (north or south) of a wall tile.
#[derive(Hash, Eq, PartialEq, Clone, Copy, Debug, Structural)]
pub enum WallModel {
    Corner,
    Vertical,
    Horizontal,
    InverseCorner,
    Full,
}

/// The sprite drawn below moving objects.
#[derive(Hash, Eq, PartialEq, Clone, Copy, Debug, Structural)]
pub struct BaseSprite {
    pub center: BaseSpriteCenter,
    pub south: BaseSpriteSouth,
    pub east: BaseSpriteEast,
}

#[derive(Hash, Eq, PartialEq, Clone, Copy, Debug, Structural)]
pub enum BaseSpriteCenter {
    Blank,
    WallCorner,
    WallVertical,
    WallHorizontal,
    WallInverseCorner,
    WallFull,
    StairN,
    StairNFull,
    StairS,
    StairSFull,
    StairE,
    StairEFull,
    StairW,
    StairWFull,
}

#[derive(Hash, Eq, PartialEq, Clone, Copy, Debug, Structural)]
pub enum BaseSpriteSouth {
    Blank,
    Door,
}

#[derive(Hash, Eq, PartialEq, Clone, Copy, Debug, Structural)]
pub enum BaseSpriteEast {
    Blank,
    Door,
    StairN,
    StairS,
}

/// The sprite drawn above moving objects.
#[derive(Hash, Eq, PartialEq, Clone, Copy, Debug, Structural)]
pub struct TopSprite {
    pub center: TopSpriteCenter,
    pub south: TopSpriteSouth,
    pub south_east: TopSpriteSouthEast,
    pub east: TopSpriteEast,
}

#[derive(Hash, Eq, PartialEq, Clone, Copy, Debug, Structural)]
pub enum TopSpriteCenter {
    Blank,
    WallCorner,
    WallVertical,
    WallHorizontal,
    WallInverseCorner,
    WallFull,
    Door,
    StairS,
    StairSFull,
}

#[derive(Hash, Eq, PartialEq, Clone, Copy, Debug, Structural)]
pub enum TopSpriteSouth {
    Blank,
    Door,
    WallCorner,
    WallHorizontal,
    StairN,
    StairNFull,
    StairE,
    StairEFull,
    StairW,
    StairWFull,
}

#[derive(Hash, Eq, PartialEq, Clone, Copy, Debug, Structural)]
pub enum TopSpriteEast {
    Blank,
    Door,
    StairS,
}

#[derive(Hash, Eq, PartialEq, Clone, Copy, Debug, Structural)]
pub enum TopSpriteSouthEast {
    Blank,
    StairN,
}

// ---------------------------------------------------------------------------
// Mirroring east and west
// ---------------------------------------------------------------------------

impl TileVariant {
    /// The variant mirrored left to right: east and west stairs swap.
    pub open spec fn flipped(self) -> TileVariant {
        match self {
            TileVariant::StairE => TileVariant::StairW,
            TileVariant::StairW => TileVariant::StairE,
            _ => self,
        }
    }

    /// All variants, in declaration order.
    pub fn values() -> (r: [TileVariant; 7])
        ensures
            r@ == seq![
                TileVariant::Empty,
                TileVariant::Wall,
                TileVariant::Door,
                TileVariant::StairN,
                TileVariant::StairS,
                TileVariant::StairE,
                TileVariant::StairW,
            ],
    {
        [
            TileVariant::Empty,
            TileVariant::Wall,
            TileVariant::Door,
            TileVariant::StairN,
            TileVariant::StairS,
            TileVariant::StairE,
            TileVariant::StairW,
        ]
    }

    pub fn flip(&self) -> (r: Self)
        ensures
            r == self.flipped(),
    {
        match self {
            TileVariant::StairE => TileVariant::StairW,
            TileVariant::StairW => TileVariant::StairE,
            _ => *self,
        }
    }
}

/// Mirroring a tile variant twice gives it back.
pub proof fn lemma_tile_variant_flip_involution(v: TileVariant)
    ensures
        v.flipped().flipped() == v,
{
}

// ---------------------------------------------------------------------------
// Models
// ---------------------------------------------------------------------------

/// True where `v` is one of the kinds that count as a wall to the north of a
/// wall half: a wall, or a stair that leads up against it.
pub open spec fn is_wall_or(v: TileVariant, a: TileVariant) -> bool {
    v == TileVariant::Wall || v == a
}

pub open spec fn is_wall_or2(v: TileVariant, a: TileVariant, b: TileVariant) -> bool {
    v == TileVariant::Wall || v == a || v == b
}

impl WallModel {
    /// The wall half chosen from whether its neighbour toward the outer edge,
    /// its east neighbour and the diagonal between them are solid.
    pub open spec fn resolved(south: bool, east: bool, south_east: bool) -> WallModel {
        if !south && !east {
            WallModel::Corner
        } else if !south && east {
            WallModel::Horizontal
        } else if south && !east {
            WallModel::Vertical
        } else if !south_east {
            WallModel::InverseCorner
        } else {
            WallModel::Full
        }
    }

    fn resolve(south: bool, east: bool, south_east: bool) -> (r: WallModel)
        ensures
            r == WallModel::resolved(south, east, south_east),
    {
        match (south, east, south_east) {
            (false, false, _) => WallModel::Corner,
            (false, true, _) => WallModel::Horizontal,
            (true, false, _) => WallModel::Vertical,
            (true, true, false) => WallModel::InverseCorner,
            (true, true, true) => WallModel::Full,
        }
    }
}

impl Model {
    /// The model of a tile of kind `center` with the given neighbours.
    pub open spec fn resolved(
        center: TileVariant,
        north: TileVariant,
        north_east: TileVariant,
        east: TileVariant,
        south_east: TileVariant,
        south: TileVariant,
    ) -> Model {
        match center {
            TileVariant::Empty => Model::Empty,
            TileVariant::Wall => Model::Wall {
                north: WallModel::resolved(
                    is_wall_or(north, TileVariant::StairS),
                    is_wall_or(east, TileVariant::StairW),
                    is_wall_or2(north_east, TileVariant::StairW, TileVariant::StairS),
                ),
                south: WallModel::resolved(
                    is_wall_or(south, TileVariant::StairN),
                    is_wall_or(east, TileVariant::StairW),
                    is_wall_or2(south_east, TileVariant::StairW, TileVariant::StairN),
                ),
            },
            TileVariant::Door => if east == TileVariant::Wall {
                Model::DoorHorizontalFull
            } else if north == TileVariant::Wall && south == TileVariant::Wall {
                Model::DoorVerticalNorthSouth
            } else if north == TileVariant::Wall {
                Model::DoorVerticalNorth
            } else if south == TileVariant::Wall {
                Model::DoorVerticalSouth
            } else {
                Model::DoorVertical
            },
            TileVariant::StairN => if is_wall_or(east, TileVariant::StairN) {
                Model::StairNFull
            } else {
                Model::StairN
            },
            TileVariant::StairS => if is_wall_or(east, TileVariant::StairS) {
                Model::StairSFull
            } else {
                Model::StairS
            },
            TileVariant::StairE => {
                let n = is_wall_or(north, TileVariant::StairE);
                let s = is_wall_or(south, TileVariant::StairE);
                if n && s {
                    Model::StairENorthSouth
                } else if n {
                    Model::StairENorth
                } else if s {
                    Model::StairESouth
                } else {
                    Model::StairE
                }
            },
            TileVariant::StairW => {
                let n = is_wall_or(north, TileVariant::StairW);
                let s = is_wall_or(south, TileVariant::StairW);
                if n && s {
                    Model::StairWNorthSouth
                } else if n {
                    Model::StairWNorth
                } else if s {
                    Model::StairWSouth
                } else {
                    Model::StairW
                }
            },
        }
    }

    pub fn resolve(
        center: TileVariant,
        north: TileVariant,
        north_east: TileVariant,
        east: TileVariant,
        south_east: TileVariant,
        south: TileVariant,
    ) -> (r: Model)
        ensures
            r == Model::resolved(center, north, north_east, east, south_east, south),
    {
        match center {
            TileVariant::Empty => Model::Empty,
            TileVariant::Wall => Model::Wall {
                north: WallModel::resolve(
                    matches!(north, TileVariant::Wall | TileVariant::StairS),
                    matches!(east, TileVariant::Wall | TileVariant::StairW),
                    matches!(
                        north_east,
                        TileVariant::Wall | TileVariant::StairW | TileVariant::StairS
                    ),
                ),
                south: WallModel::resolve(
                    matches!(south, TileVariant::Wall | TileVariant::StairN),
                    matches!(east, TileVariant::Wall | TileVariant::StairW),
                    matches!(
                        south_east,
                        TileVariant::Wall | TileVariant::StairW | TileVariant::StairN
                    ),
                ),
            },
            TileVariant::Door => {
                if east == TileVariant::Wall {
                    Model::DoorHorizontalFull
                } else {
                    match (north, south) {
                        (TileVariant::Wall, TileVariant::Wall) => Model::DoorVerticalNorthSouth,
                        (TileVariant::Wall, _) => Model::DoorVerticalNorth,
                        (_, TileVariant::Wall) => Model::DoorVerticalSouth,
                        (_, _) => Model::DoorVertical,
                    }
                }
            },
            TileVariant::StairN => match east {
                TileVariant::Wall | TileVariant::StairN => Model::StairNFull,
                _ => Model::StairN,
            },
            TileVariant::StairS => match east {
                TileVariant::Wall | TileVariant::StairS => Model::StairSFull,
                _ => Model::StairS,
            },
            TileVariant::StairE => match (north, south) {
                (
                    TileVariant::Wall | TileVariant::StairE,
                    TileVariant::Wall | TileVariant::StairE,
                ) => Model::StairENorthSouth,
                (TileVariant::Wall | TileVariant::StairE, _) => Model::StairENorth,
                (_, TileVariant::Wall | TileVariant::StairE) => Model::StairESouth,
                (_, _) => Model::StairE,
            },
            TileVariant::StairW => match (north, south) {
                (
                    TileVariant::Wall | TileVariant::StairW,
                    TileVariant::Wall | TileVariant::StairW,
                ) => Model::StairWNorthSouth,
                (TileVariant::Wall | TileVariant::StairW, _) => Model::StairWNorth,
                (_, TileVariant::Wall | TileVariant::StairW) => Model::StairWSouth,
                (_, _) => Model::StairW,
            },
        }
    }

    /// The base sprite part this model draws in its own tile.
    pub open spec fn center_base(self) -> BaseSpriteCenter {
        match self {
            Model::Wall { north: _, south } => match south {
                WallModel::Corner => BaseSpriteCenter::WallCorner,
                WallModel::Vertical => BaseSpriteCenter::WallVertical,
                WallModel::Horizontal => BaseSpriteCenter::WallHorizontal,
                WallModel::InverseCorner => BaseSpriteCenter::WallInverseCorner,
                WallModel::Full => BaseSpriteCenter::WallFull,
            },
            Model::StairN => BaseSpriteCenter::StairN,
            Model::StairNFull => BaseSpriteCenter::StairNFull,
            Model::StairS => BaseSpriteCenter::StairS,
            Model::StairSFull => BaseSpriteCenter::StairSFull,
            Model::StairE | Model::StairENorth => BaseSpriteCenter::StairE,
            Model::StairESouth | Model::StairENorthSouth => BaseSpriteCenter::StairEFull,
            Model::StairW | Model::StairWNorth => BaseSpriteCenter::StairW,
            Model::StairWSouth | Model::StairWNorthSouth => BaseSpriteCenter::StairWFull,
            _ => BaseSpriteCenter::Blank,
        }
    }

    pub fn center_base_sprite(&self) -> (r: BaseSpriteCenter)
        ensures
            r == self.center_base(),
    {
        match self {
            Model::Empty
            | Model::DoorHorizontal
            | Model::DoorHorizontalFull
            | Model::DoorVertical
            | Model::DoorVerticalNorth
            | Model::DoorVerticalSouth
            | Model::DoorVerticalNorthSouth => BaseSpriteCenter::Blank,
            Model::Wall { north: _, south } => match south {
                WallModel::Corner => BaseSpriteCenter::WallCorner,
                WallModel::Vertical => BaseSpriteCenter::WallVertical,
                WallModel::Horizontal => BaseSpriteCenter::WallHorizontal,
                WallModel::InverseCorner => BaseSpriteCenter::WallInverseCorner,
                WallModel::Full => BaseSpriteCenter::WallFull,
            },
            Model::StairN => BaseSpriteCenter::StairN,
            Model::StairNFull => BaseSpriteCenter::StairNFull,
            Model::StairS => BaseSpriteCenter::StairS,
            Model::StairSFull => BaseSpriteCenter::StairSFull,
            Model::StairE | Model::StairENorth => BaseSpriteCenter::StairE,
            Model::StairESouth | Model::StairENorthSouth => BaseSpriteCenter::StairEFull,
            Model::StairW | Model::StairWNorth => BaseSpriteCenter::StairW,
            Model::StairWSouth | Model::StairWNorthSouth => BaseSpriteCenter::StairWFull,
        }
    }

    /// The top sprite part this model draws in its own tile.
    pub open spec fn center_top(self) -> TopSpriteCenter {
        match self {
            Model::Wall { north: _, south } => match south {
                WallModel::Corner => TopSpriteCenter::WallCorner,
                WallModel::Vertical => TopSpriteCenter::WallVertical,
                WallModel::Horizontal => TopSpriteCenter::WallHorizontal,
                WallModel::InverseCorner => TopSpriteCenter::WallInverseCorner,
                WallModel::Full => TopSpriteCenter::WallFull,
            },
            Model::DoorVerticalSouth | Model::DoorVerticalNorthSouth => TopSpriteCenter::Door,
            Model::StairS => TopSpriteCenter::StairS,
            Model::StairSFull => TopSpriteCenter::StairSFull,
            _ => TopSpriteCenter::Blank,
        }
    }

    pub fn center_top_sprite(&self) -> (r: TopSpriteCenter)
        ensures
            r == self.center_top(),
    {
        match self {
            Model::Empty => TopSpriteCenter::Blank,
            Model::Wall { north: _, south } => match south {
                WallModel::Corner => TopSpriteCenter::WallCorner,
                WallModel::Vertical => TopSpriteCenter::WallVertical,
                WallModel::Horizontal => TopSpriteCenter::WallHorizontal,
                WallModel::InverseCorner => TopSpriteCenter::WallInverseCorner,
                WallModel::Full => TopSpriteCenter::WallFull,
            },
            Model::DoorHorizontal
            | Model::DoorHorizontalFull
            | Model::DoorVertical
            | Model::DoorVerticalNorth => TopSpriteCenter::Blank,
            Model::DoorVerticalSouth | Model::DoorVerticalNorthSouth => TopSpriteCenter::Door,
            Model::StairN
            | Model::StairNFull
            | Model::StairE
            | Model::StairENorth
            | Model::StairESouth
            | Model::StairENorthSouth
            | Model::StairW
            | Model::StairWNorth
            | Model::StairWSouth
            | Model::StairWNorthSouth => TopSpriteCenter::Blank,
            Model::StairS => TopSpriteCenter::StairS,
            Model::StairSFull => TopSpriteCenter::StairSFull,
        }
    }

    /// The base sprite part this model draws along the south edge of the tile
    /// to its north.
    pub open spec fn north_base(self) -> BaseSpriteSouth {
        match self {
            Model::DoorVerticalNorth | Model::DoorVerticalNorthSouth => BaseSpriteSouth::Door,
            _ => BaseSpriteSouth::Blank,
        }
    }

    pub fn north_base_sprite(&self) -> (r: BaseSpriteSouth)
        ensures
            r == self.north_base(),
    {
        match self {
            Model::DoorVerticalNorth | Model::DoorVerticalNorthSouth => BaseSpriteSouth::Door,
            _ => BaseSpriteSouth::Blank,
        }
    }

    /// The top sprite part this model draws along the south edge of the tile
    /// to its north.
    pub open spec fn north_top(self) -> TopSpriteSouth {
        match self {
            Model::Wall { north, south: _ } => match north {
                WallModel::Corner | WallModel::Vertical => TopSpriteSouth::WallCorner,
                _ => TopSpriteSouth::WallHorizontal,
            },
            Model::DoorVerticalNorth | Model::DoorVerticalNorthSouth => TopSpriteSouth::Door,
            Model::StairN => TopSpriteSouth::StairN,
            Model::StairNFull => TopSpriteSouth::StairNFull,
            Model::StairE | Model::StairESouth => TopSpriteSouth::StairE,
            Model::StairENorth | Model::StairENorthSouth => TopSpriteSouth::StairEFull,
            Model::StairW | Model::StairWSouth => TopSpriteSouth::StairW,
            Model::StairWNorth | Model::StairWNorthSouth => TopSpriteSouth::StairWFull,
            _ => TopSpriteSouth::Blank,
        }
    }

    pub fn north_top_sprite(&self) -> (r: TopSpriteSouth)
        ensures
            r == self.north_top(),
    {
        match self {
            Model::Empty => TopSpriteSouth::Blank,
            Model::Wall { north: WallModel::Corner | WallModel::Vertical, south: _ } => {
                TopSpriteSouth::WallCorner
            },
            Model::Wall {
                north: WallModel::Horizontal | WallModel::InverseCorner | WallModel::Full,
                south: _,
            } => TopSpriteSouth::WallHorizontal,
            Model::DoorHorizontal
            | Model::DoorHorizontalFull
            | Model::DoorVertical
            | Model::DoorVerticalSouth => TopSpriteSouth::Blank,
            Model::DoorVerticalNorth | Model::DoorVerticalNorthSouth => TopSpriteSouth::Door,
            Model::StairN => TopSpriteSouth::StairN,
            Model::StairNFull => TopSpriteSouth::StairNFull,
            Model::StairS | Model::StairSFull => TopSpriteSouth::Blank,
            Model::StairE | Model::StairESouth => TopSpriteSouth::StairE,
            Model::StairENorth | Model::StairENorthSouth => TopSpriteSouth::StairEFull,
            Model::StairW | Model::StairWSouth => TopSpriteSouth::StairW,
            Model::StairWNorth | Model::StairWNorthSouth => TopSpriteSouth::StairWFull,
        }
    }

    /// The base sprite part this model draws along the east edge of the tile
    /// to its west.
    pub open spec fn east_base(self) -> BaseSpriteEast {
        match self {
            Model::DoorHorizontalFull => BaseSpriteEast::Door,
            Model::StairNFull => BaseSpriteEast::StairN,
            Model::StairSFull => BaseSpriteEast::StairS,
            _ => BaseSpriteEast::Blank,
        }
    }

    pub fn east_base_sprite(&self) -> (r: BaseSpriteEast)
        ensures
            r == self.east_base(),
    {
        match self {
            Model::Empty => BaseSpriteEast::Blank,
            Model::Wall { .. } => BaseSpriteEast::Blank,
            Model::DoorHorizontal
            | Model::DoorVertical
            | Model::DoorVerticalNorth
            | Model::DoorVerticalSouth
            | Model::DoorVerticalNorthSouth => BaseSpriteEast::Blank,
            Model::DoorHorizontalFull => BaseSpriteEast::Door,
            Model::StairN | Model::StairS => BaseSpriteEast::Blank,
            Model::StairNFull => BaseSpriteEast::StairN,
            Model::StairSFull => BaseSpriteEast::StairS,
            Model::StairE
            | Model::StairENorth
            | Model::StairESouth
            | Model::StairENorthSouth
            | Model::StairW
            | Model::StairWNorth
            | Model::StairWSouth
            | Model::StairWNorthSouth => BaseSpriteEast::Blank,
        }
    }

    /// The top sprite part this model draws along the east edge of the tile
    /// to its west.
    pub open spec fn east_top(self) -> TopSpriteEast {
        match self {
            Model::DoorHorizontalFull => TopSpriteEast::Door,
            Model::StairSFull => TopSpriteEast::StairS,
            _ => TopSpriteEast::Blank,
        }
    }

    pub fn east_top_sprite(&self) -> (r: TopSpriteEast)
        ensures
            r == self.east_top(),
    {
        match self {
            Model::Empty => TopSpriteEast::Blank,
            Model::Wall { .. } => TopSpriteEast::Blank,
            Model::DoorHorizontal
            | Model::DoorVertical
            | Model::DoorVerticalNorth
            | Model::DoorVerticalSouth
            | Model::DoorVerticalNorthSouth => TopSpriteEast::Blank,
            Model::DoorHorizontalFull => TopSpriteEast::Door,
            Model::StairN
            | Model::StairS
            | Model::StairNFull
            | Model::StairE
            | Model::StairENorth
            | Model::StairESouth
            | Model::StairENorthSouth
            | Model::StairW
            | Model::StairWNorth
            | Model::StairWSouth
            | Model::StairWNorthSouth => TopSpriteEast::Blank,
            Model::StairSFull => TopSpriteEast::StairS,
        }
    }

    /// The top sprite part this model draws in the south-east corner of the
    /// tile to its north-west.
    pub open spec fn north_east_top(self) -> TopSpriteSouthEast {
        match self {
            Model::StairNFull => TopSpriteSouthEast::StairN,
            _ => TopSpriteSouthEast::Blank,
        }
    }

    pub fn north_east_top_sprite(&self) -> (r: TopSpriteSouthEast)
        ensures
            r == self.north_east_top(),
    {
        match self {
            Model::Empty => TopSpriteSouthEast::Blank,
            Model::Wall { .. } => TopSpriteSouthEast::Blank,
            Model::DoorHorizontal
            | Model::DoorVertical
            | Model::DoorVerticalNorth
            | Model::DoorVerticalSouth
            | Model::DoorVerticalNorthSouth
            | Model::DoorHorizontalFull => TopSpriteSouthEast::Blank,
            Model::StairN | Model::StairS | Model::StairSFull => TopSpriteSouthEast::Blank,
            Model::StairNFull => TopSpriteSouthEast::StairN,
            Model::StairE | Model::StairENorth | Model::StairESouth | Model::StairENorthSouth => {
                TopSpriteSouthEast::Blank
            },
            Model::StairW | Model::StairWSouth | Model::StairWNorth | Model::StairWNorthSouth => {
                TopSpriteSouthEast::Blank
            },
        }
    }

    /// The model mirrored left to right: east and west stairs swap.
    pub open spec fn flipped(self) -> Model {
        match self {
            Model::StairE => Model::StairW,
            Model::StairENorth => Model::StairWNorth,
            Model::StairESouth => Model::StairWSouth,
            Model::StairENorthSouth => Model::StairWNorthSouth,
            Model::StairW => Model::StairE,
            Model::StairWNorth => Model::StairENorth,
            Model::StairWSouth => Model::StairESouth,
            Model::StairWNorthSouth => Model::StairENorthSouth,
            _ => self,
        }
    }

    pub fn flip(&self) -> (r: Model)
        ensures
            r == self.flipped(),
    {
        match self {
            Model::StairE => Model::StairW,
            Model::StairENorth => Model::StairWNorth,
            Model::StairESouth => Model::StairWSouth,
            Model::StairENorthSouth => Model::StairWNorthSouth,
            Model::StairW => Model::StairE,
            Model::StairWNorth => Model::StairENorth,
            Model::StairWSouth => Model::StairESouth,
            Model::StairWNorthSouth => Model::StairENorthSouth,
            _ => *self,
        }
    }
}

/// Mirroring a model twice gives it back.
pub proof fn lemma_model_flip_involution(m: Model)
    ensures
        m.flipped().flipped() == m,
{
}

// ---------------------------------------------------------------------------
// Sprites
// ---------------------------------------------------------------------------

impl BaseSprite {
    /// The sprite with no walls, doors, or stairs.
    pub open spec fn blank() -> BaseSprite {
        BaseSprite {
            center: BaseSpriteCenter::Blank,
            south: BaseSpriteSouth::Blank,
            east: BaseSpriteEast::Blank,
        }
    }

    /// The sprite with no walls, doors, or stairs.
    #[allow(non_snake_case)]
    pub fn EMPTY() -> (r: BaseSprite)
        ensures
            r == BaseSprite::blank(),
    {
        BaseSprite {
            center: BaseSpriteCenter::Blank,
            south: BaseSpriteSouth::Blank,
            east: BaseSpriteEast::Blank,
        }
    }

    /// The canonical form of a base sprite: a full north or south stair top
    /// already spans the tile and hides the matching east stair edge.
    pub open spec fn normalized(self) -> BaseSprite {
        if (self.center == BaseSpriteCenter::StairNFull && self.east == BaseSpriteEast::StairN)
            || (self.center == BaseSpriteCenter::StairSFull && self.east
            == BaseSpriteEast::StairS) {
            BaseSprite { east: BaseSpriteEast::Blank, ..self }
        } else {
            self
        }
    }

    /// Maps a sprite to its canonical, visually-deduplicated form.
    pub fn normalize(self) -> (r: Self)
        ensures
            r == self.normalized(),
    {
        match self {
            BaseSprite { center: BaseSpriteCenter::StairNFull, east: BaseSpriteEast::StairN, .. }
            | BaseSprite {
                center: BaseSpriteCenter::StairSFull,
                east: BaseSpriteEast::StairS,
                ..
            } => BaseSprite { east: BaseSpriteEast::Blank, ..self },
            _ => self,
        }
    }

    pub fn resolve(
        center: TileVariant,
        north: TileVariant,
        north_east: TileVariant,
        east: TileVariant,
        south_east: TileVariant,
        south: TileVariant,
    ) -> (r: Self)
        ensures
            r == resolved_sprites(center, north, north_east, east, south_east, south).0,
    {
        resolve_sprites(center, north, north_east, east, south_east, south).0
    }
}

/// Normalizing a base sprite twice is the same as normalizing it once.
pub proof fn lemma_base_normalize_idempotent(s: BaseSprite)
    ensures
        s.normalized().normalized() == s.normalized(),
{
}

impl TopSprite {
    /// The sprite with no walls, doors, or stairs.
    pub open spec fn blank() -> TopSprite {
        TopSprite {
            center: TopSpriteCenter::Blank,
            south: TopSpriteSouth::Blank,
            south_east: TopSpriteSouthEast::Blank,
            east: TopSpriteEast::Blank,
        }
    }

    /// The sprite with no walls, doors, or stairs.
    #[allow(non_snake_case)]
    pub fn EMPTY() -> (r: TopSprite)
        ensures
            r == TopSprite::blank(),
    {
        TopSprite {
            center: TopSpriteCenter::Blank,
            south: TopSpriteSouth::Blank,
            south_east: TopSpriteSouthEast::Blank,
            east: TopSpriteEast::Blank,
        }
    }

    /// First step of normalization: a full north stair along the south edge
    /// hides the stair in the south-east corner.
    pub open spec fn without_covered_corner(self) -> TopSprite {
        if self.south == TopSpriteSouth::StairNFull {
            TopSprite { south_east: TopSpriteSouthEast::Blank, ..self }
        } else {
            self
        }
    }

    /// Second step of normalization: a full south stair top hides the
    /// matching east stair edge.
    pub open spec fn without_covered_edge(self) -> TopSprite {
        if self.center == TopSpriteCenter::StairSFull && self.east == TopSpriteEast::StairS {
            TopSprite { east: TopSpriteEast::Blank, ..self }
        } else {
            self
        }
    }

    /// Last step of normalization: combinations whose top layer draws
    /// nothing beyond what the base layer shows are reduced to the empty
    /// sprite, keeping only a visible south stair part.
    pub open spec fn reduced(self) -> TopSprite {
        let c = self.center;
        let s = self.south;
        let se = self.south_east;
        let e = self.east;
        let east_any = e == TopSpriteEast::Blank || e == TopSpriteEast::Door || e
            == TopSpriteEast::StairS;
        let east_no_stair = e == TopSpriteEast::Blank || e == TopSpriteEast::Door;
        if se != TopSpriteSouthEast::Blank {
            self
        } else if (c == TopSpriteCenter::WallCorner || c == TopSpriteCenter::WallHorizontal)
            && east_any && (s == TopSpriteSouth::Blank || s == TopSpriteSouth::Door) {
            TopSprite::blank()
        } else if (c == TopSpriteCenter::WallVertical || c == TopSpriteCenter::WallInverseCorner)
            && east_any && s == TopSpriteSouth::WallCorner {
            TopSprite::blank()
        } else if c == TopSpriteCenter::WallCorner && east_no_stair && (s
            == TopSpriteSouth::StairEFull || s == TopSpriteSouth::StairWFull) {
            TopSprite { south: s, ..TopSprite::blank() }
        } else if c == TopSpriteCenter::WallCorner && e == TopSpriteEast::StairS && s
            == TopSpriteSouth::StairEFull {
            TopSprite { south: TopSpriteSouth::StairEFull, ..TopSprite::blank() }
        } else if (c == TopSpriteCenter::WallHorizontal || c == TopSpriteCenter::WallCorner)
            && east_any && s == TopSpriteSouth::StairWFull {
            TopSprite { south: s, ..TopSprite::blank() }
        } else if c == TopSpriteCenter::WallFull && east_no_stair && s
            == TopSpriteSouth::WallHorizontal {
            TopSprite::blank()
        } else if (c == TopSpriteCenter::StairS || c == TopSpriteCenter::StairSFull) && e
            == TopSpriteEast::Blank && (s == TopSpriteSouth::Blank || s == TopSpriteSouth::StairE
            || s == TopSpriteSouth::StairW) {
            TopSprite { south: s, ..TopSprite::blank() }
        } else {
            self
        }
    }

    /// The canonical form of a top sprite.
    pub open spec fn normalized(self) -> TopSprite {
        self.without_covered_corner().without_covered_edge().reduced()
    }

    /// Maps a sprite to its canonical, visually-deduplicated form.
    pub fn normalize(self) -> (r: Self)
        ensures
            r == self.normalized(),
    {
        // These two reductions key off disjoint fields and can both apply to the same sprite,
        // so both are applied here in sequence to keep `normalize()` a fixed point in one call.
        let this = match self {
            TopSprite { south: TopSpriteSouth::StairNFull, .. } => TopSprite {
                south_east: TopSpriteSouthEast::Blank,
                ..self
            },
            _ => self,
        };

        let this = match this {
            TopSprite { center: TopSpriteCenter::StairSFull, east: TopSpriteEast::StairS, .. } => {
                TopSprite { east: TopSpriteEast::Blank, ..this }
            },
            _ => this,
        };

        let this = match this {
            TopSprite {
                center: TopSpriteCenter::WallCorner | TopSpriteCenter::WallHorizontal,
                east: TopSpriteEast::Blank | TopSpriteEast::Door | TopSpriteEast::StairS,
                south: TopSpriteSouth::Blank | TopSpriteSouth::Door,
                south_east: TopSpriteSouthEast::Blank,
            } => TopSprite::EMPTY(),
            TopSprite {
                center: TopSpriteCenter::WallVertical | TopSpriteCenter::WallInverseCorner,
                east: TopSpriteEast::Blank | TopSpriteEast::Door | TopSpriteEast::StairS,
                south: TopSpriteSouth::WallCorner,
                south_east: TopSpriteSouthEast::Blank,
            } => TopSprite::EMPTY(),
            TopSprite {
                center: TopSpriteCenter::WallCorner,
                east: TopSpriteEast::Blank | TopSpriteEast::Door,
                south: TopSpriteSouth::StairEFull | TopSpriteSouth::StairWFull,
                south_east: TopSpriteSouthEast::Blank,
            } => TopSprite { south: this.south, ..TopSprite::EMPTY() },
            TopSprite {
                center: TopSpriteCenter::WallCorner,
                east: TopSpriteEast::StairS,
                south: TopSpriteSouth::StairEFull,
                south_east: TopSpriteSouthEast::Blank,
            } => TopSprite { south: TopSpriteSouth::StairEFull, ..TopSprite::EMPTY() },
            TopSprite {
                center: TopSpriteCenter::WallHorizontal | TopSpriteCenter::WallCorner,
                east: TopSpriteEast::Blank | TopSpriteEast::Door | TopSpriteEast::StairS,
                south: TopSpriteSouth::StairWFull,
                south_east: TopSpriteSouthEast::Blank,
            } => TopSprite { south: this.south, ..TopSprite::EMPTY() },
            TopSprite {
                center: TopSpriteCenter::WallFull,
                east: TopSpriteEast::Blank | TopSpriteEast::Door,
                south: TopSpriteSouth::WallHorizontal,
                south_east: TopSpriteSouthEast::Blank,
            } => TopSprite::EMPTY(),
            TopSprite {
                center: TopSpriteCenter::StairS | TopSpriteCenter::StairSFull,
                east: TopSpriteEast::Blank,
                south: TopSpriteSouth::Blank | TopSpriteSouth::StairE | TopSpriteSouth::StairW,
                south_east: TopSpriteSouthEast::Blank,
            } => TopSprite { south: this.south, ..TopSprite::EMPTY() },
            _ => this,
        };

        this
    }

    pub fn resolve(
        center: TileVariant,
        north: TileVariant,
        north_east: TileVariant,
        east: TileVariant,
        south_east: TileVariant,
        south: TileVariant,
    ) -> (r: Self)
        ensures
            r == resolved_sprites(center, north, north_east, east, south_east, south).1,
    {
        resolve_sprites(center, north, north_east, east, south_east, south).1
    }
}

/// Normalizing a top sprite twice is the same as normalizing it once.
pub proof fn lemma_top_normalize_idempotent(s: TopSprite)
    ensures
        s.normalized().normalized() == s.normalized(),
{
}

/// The base and top sprites of a tile, from the kinds of the tile and of the
/// tiles around it. The sprites of a tile cover its south and east edges,
/// so the models of the east, south-east and south tiles contribute, each
/// resolved with the neighbours it can see; east-facing tiles are resolved
/// mirrored.
pub open spec fn resolved_sprites(
    center: TileVariant,
    north: TileVariant,
    north_east: TileVariant,
    east: TileVariant,
    south_east: TileVariant,
    south: TileVariant,
) -> (BaseSprite, TopSprite) {
    let center_model = Model::resolved(center, north, north_east, east, south_east, south);
    let east_model = Model::resolved(
        east.flipped(),
        north_east.flipped(),
        north.flipped(),
        center.flipped(),
        south.flipped(),
        south_east.flipped(),
    ).flipped();
    let south_east_model = Model::resolved(
        south_east.flipped(),
        east.flipped(),
        center.flipped(),
        south.flipped(),
        TileVariant::Empty,
        TileVariant::Empty,
    ).flipped();
    let south_model = Model::resolved(
        south,
        center,
        east,
        south_east,
        TileVariant::Empty,
        TileVariant::Empty,
    );
    (
        BaseSprite {
            center: center_model.center_base(),
            south: south_model.north_base(),
            east: east_model.east_base(),
        }.normalized(),
        TopSprite {
            center: center_model.center_top(),
            south: south_model.north_top(),
            south_east: south_east_model.north_east_top(),
            east: east_model.east_top(),
        }.normalized(),
    )
}

pub fn resolve_sprites(
    center: TileVariant,
    north: TileVariant,
    north_east: TileVariant,
    east: TileVariant,
    south_east: TileVariant,
    south: TileVariant,
) -> (r: (BaseSprite, TopSprite))
    ensures
        r == resolved_sprites(center, north, north_east, east, south_east, south),
{
    let center_model = Model::resolve(center, north, north_east, east, south_east, south);

    let east_model = Model::resolve(
        east.flip(),
        north_east.flip(),
        north.flip(),
        center.flip(),
        south.flip(),
        south_east.flip(),
    ).flip();
    let south_east_model = Model::resolve(
        south_east.flip(),
        east.flip(),
        center.flip(),
        south.flip(),
        TileVariant::Empty,
        TileVariant::Empty,
    ).flip();
    let south_model = Model::resolve(
        south,
        center,
        east,
        south_east,
        TileVariant::Empty,
        TileVariant::Empty,
    );

    (
        BaseSprite {
            center: center_model.center_base_sprite(),
            south: south_model.north_base_sprite(),
            east: east_model.east_base_sprite(),
        }.normalize(),
        TopSprite {
            center: center_model.center_top_sprite(),
            south: south_model.north_top_sprite(),
            south_east: south_east_model.north_east_top_sprite(),
            east: east_model.east_top_sprite(),
        }.normalize(),
    )
}

/// The sprites of a tile do not depend on its north and north-east
/// neighbours.
pub proof fn lemma_sprites_ignore_north(
    center: TileVariant,
    north: TileVariant,
    north_east: TileVariant,
    east: TileVariant,
    south_east: TileVariant,
    south: TileVariant,
    other_north: TileVariant,
    other_north_east: TileVariant,
)
    ensures
        resolved_sprites(center, north, north_east, east, south_east, south) == resolved_sprites(
            center,
            other_north,
            other_north_east,
            east,
            south_east,
            south,
        ),
{
}

/// Resolved sprites are already in canonical form.
pub proof fn lemma_resolved_sprites_normalized(
    center: TileVariant,
    north: TileVariant,
    north_east: TileVariant,
    east: TileVariant,
    south_east: TileVariant,
    south: TileVariant,
)
    ensures
        ({
            let (base, top) = resolved_sprites(center, north, north_east, east, south_east, south);
            base.normalized() == base && top.normalized() == top
        }),
{
}

// ---------------------------------------------------------------------------
// Laws of models and sprites
// ---------------------------------------------------------------------------

/// An empty tile has no model, and a door runs west to east, full, exactly
/// where a wall lies east of it; else it runs north to south, with a part
/// toward each of its north and south neighbours that is a wall.
pub proof fn lemma_empty_and_door_models(
    north: TileVariant,
    north_east: TileVariant,
    east: TileVariant,
    south_east: TileVariant,
    south: TileVariant,
)
    ensures
        Model::resolved(TileVariant::Empty, north, north_east, east, south_east, south)
            == Model::Empty,
        east == TileVariant::Wall ==> Model::resolved(
            TileVariant::Door,
            north,
            north_east,
            east,
            south_east,
            south,
        ) == Model::DoorHorizontalFull,
        east != TileVariant::Wall ==> Model::resolved(
            TileVariant::Door,
            north,
            north_east,
            east,
            south_east,
            south,
        ) == (match (north == TileVariant::Wall, south == TileVariant::Wall) {
            (true, true) => Model::DoorVerticalNorthSouth,
            (true, false) => Model::DoorVerticalNorth,
            (false, true) => Model::DoorVerticalSouth,
            (false, false) => Model::DoorVertical,
        }),
{
}

/// A north or south stair is drawn full exactly when the tile east of it is
/// a wall or a stair running the same way; no other neighbour matters.
pub proof fn lemma_stair_full_models(
    north: TileVariant,
    north_east: TileVariant,
    east: TileVariant,
    south_east: TileVariant,
    south: TileVariant,
)
    ensures
        Model::resolved(TileVariant::StairN, north, north_east, east, south_east, south) == (if east
            == TileVariant::Wall || east == TileVariant::StairN {
            Model::StairNFull
        } else {
            Model::StairN
        }),
        Model::resolved(TileVariant::StairS, north, north_east, east, south_east, south) == (if east
            == TileVariant::Wall || east == TileVariant::StairS {
            Model::StairSFull
        } else {
            Model::StairS
        }),
{
}

/// An east stair has a north part exactly where the tile north of it is a
/// wall or an east stair, and a south part likewise; no other neighbour
/// matters. A west stair is the mirror image of an east stair.
pub proof fn lemma_stair_side_models(
    north: TileVariant,
    north_east: TileVariant,
    east: TileVariant,
    south_east: TileVariant,
    south: TileVariant,
)
    ensures
        Model::resolved(TileVariant::StairE, north, north_east, east, south_east, south) == (match (
            north == TileVariant::Wall || north == TileVariant::StairE,
            south == TileVariant::Wall || south == TileVariant::StairE,
        ) {
            (true, true) => Model::StairENorthSouth,
            (true, false) => Model::StairENorth,
            (false, true) => Model::StairESouth,
            (false, false) => Model::StairE,
        }),
        Model::resolved(TileVariant::StairW, north, north_east, east, south_east, south) == (match (
            north == TileVariant::Wall || north == TileVariant::StairW,
            south == TileVariant::Wall || south == TileVariant::StairW,
        ) {
            (true, true) => Model::StairWNorthSouth,
            (true, false) => Model::StairWNorth,
            (false, true) => Model::StairWSouth,
            (false, false) => Model::StairW,
        }),
{
}

/// Mirroring left to right the neighbourhood of a tile that is not a wall
/// mirrors its model.
pub proof fn lemma_model_mirror(
    center: TileVariant,
    north: TileVariant,
    north_east: TileVariant,
    east: TileVariant,
    south_east: TileVariant,
    south: TileVariant,
)
    requires
        center != TileVariant::Wall,
    ensures
        Model::resolved(
            center.flipped(),
            north.flipped(),
            north_east.flipped(),
            east.flipped(),
            south_east.flipped(),
            south.flipped(),
        ) == Model::resolved(center, north, north_east, east, south_east, south).flipped(),
{
}

/// A wall half is a corner where neither the tile toward its outer edge nor
/// the tile east of it is solid, a horizontal run where only the east one
/// is, a vertical run where only the outer one is, and where both are, full
/// or an inverse corner as the diagonal tile between them is solid or not.
pub proof fn lemma_wall_half_shapes(south: bool, east: bool, south_east: bool)
    ensures
        (WallModel::resolved(south, east, south_east) == WallModel::Corner) == (!south && !east),
        (WallModel::resolved(south, east, south_east) == WallModel::Horizontal) == (!south && east),
        (WallModel::resolved(south, east, south_east) == WallModel::Vertical) == (south && !east),
        (WallModel::resolved(south, east, south_east) == WallModel::InverseCorner) == (south && east
            && !south_east),
        (WallModel::resolved(south, east, south_east) == WallModel::Full) == (south && east
            && south_east),
{
}

/// A wall's north half counts as solid the tile north of it where that is a
/// wall or a south stair, the tile east where that is a wall or a west
/// stair, and the north-east tile where that is a wall, a west or a south
/// stair; its south half likewise with north stairs and the tiles south and
/// south-east.
pub proof fn lemma_wall_models(
    north: TileVariant,
    north_east: TileVariant,
    east: TileVariant,
    south_east: TileVariant,
    south: TileVariant,
)
    ensures
        Model::resolved(TileVariant::Wall, north, north_east, east, south_east, south)
            == (Model::Wall {
            north: WallModel::resolved(
                north == TileVariant::Wall || north == TileVariant::StairS,
                east == TileVariant::Wall || east == TileVariant::StairW,
                north_east == TileVariant::Wall || north_east == TileVariant::StairW || north_east
                    == TileVariant::StairS,
            ),
            south: WallModel::resolved(
                south == TileVariant::Wall || south == TileVariant::StairN,
                east == TileVariant::Wall || east == TileVariant::StairW,
                south_east == TileVariant::Wall || south_east == TileVariant::StairW || south_east
                    == TileVariant::StairN,
            ),
        }),
{
}

/// The base sprite of a tile shows its own model at its centre: a stair
/// shows the same stair, full where its model is full.
pub proof fn lemma_base_center_of_stairs(
    north: TileVariant,
    north_east: TileVariant,
    east: TileVariant,
    south_east: TileVariant,
    south: TileVariant,
)
    ensures
        resolved_sprites(TileVariant::StairN, north, north_east, east, south_east, south).0.center
            == (if east == TileVariant::Wall || east == TileVariant::StairN {
            BaseSpriteCenter::StairNFull
        } else {
            BaseSpriteCenter::StairN
        }),
        resolved_sprites(TileVariant::StairS, north, north_east, east, south_east, south).0.center
            == (if east == TileVariant::Wall || east == TileVariant::StairS {
            BaseSpriteCenter::StairSFull
        } else {
            BaseSpriteCenter::StairS
        }),
        resolved_sprites(TileVariant::StairE, north, north_east, east, south_east, south).0.center
            == (if south == TileVariant::Wall || south == TileVariant::StairE {
            BaseSpriteCenter::StairEFull
        } else {
            BaseSpriteCenter::StairE
        }),
        resolved_sprites(TileVariant::StairW, north, north_east, east, south_east, south).0.center
            == (if south == TileVariant::Wall || south == TileVariant::StairW {
            BaseSpriteCenter::StairWFull
        } else {
            BaseSpriteCenter::StairW
        }),
{
}

/// The base sprite of a tile: at its centre nothing for an empty tile or a
/// door, the shape of the south half of a wall, or the tile's stair (see
/// [`lemma_base_center_of_stairs`]); along its south edge the north end of
/// a door south of a wall that runs north to south (no wall east of the
/// door); along its east edge the door or north or south stair east of a
/// wall that leans against it.
pub proof fn lemma_base_sprite_parts(
    center: TileVariant,
    north: TileVariant,
    north_east: TileVariant,
    east: TileVariant,
    south_east: TileVariant,
    south: TileVariant,
)
    ensures
        ({
            let base = resolved_sprites(center, north, north_east, east, south_east, south).0;
            &&& center == TileVariant::Empty || center == TileVariant::Door ==> base.center
                == BaseSpriteCenter::Blank
            &&& center == TileVariant::Wall ==> base.center == match WallModel::resolved(
                south == TileVariant::Wall || south == TileVariant::StairN,
                east == TileVariant::Wall || east == TileVariant::StairW,
                south_east == TileVariant::Wall || south_east == TileVariant::StairW || south_east
                    == TileVariant::StairN,
            ) {
                WallModel::Corner => BaseSpriteCenter::WallCorner,
                WallModel::Vertical => BaseSpriteCenter::WallVertical,
                WallModel::Horizontal => BaseSpriteCenter::WallHorizontal,
                WallModel::InverseCorner => BaseSpriteCenter::WallInverseCorner,
                WallModel::Full => BaseSpriteCenter::WallFull,
            }
            &&& base.south == (if center == TileVariant::Wall && south == TileVariant::Door
                && south_east != TileVariant::Wall {
                BaseSpriteSouth::Door
            } else {
                BaseSpriteSouth::Blank
            })
            &&& base.east == (if center != TileVariant::Wall {
                BaseSpriteEast::Blank
            } else if east == TileVariant::Door {
                BaseSpriteEast::Door
            } else if east == TileVariant::StairN {
                BaseSpriteEast::StairN
            } else if east == TileVariant::StairS {
                BaseSpriteEast::StairS
            } else {
                BaseSpriteEast::Blank
            })
        }),
{
}

/// The top sprite of a tile, in canonical form, of these parts: at its
/// centre the shape of the south half of a wall, the south end of a door
/// between walls north and south (no wall east of it), or a south stair,
/// full as in [`lemma_stair_full_models`]; along its south edge what the
/// tile south shows of its north end: a wall's corner where the tile
/// south-east of this one is not solid (a wall or a west stair), else its
/// horizontal run; the north end of a door running north to south from a
/// wall here; a north stair, full next to a wall or north stair
/// south-east; an east or west stair, full where this tile is a wall or the
/// same stair; in its south-east corner a full north stair there; along
/// its east edge the door east of a wall, or the south stair east of a wall
/// or a south stair.
pub proof fn lemma_top_sprite_parts(
    center: TileVariant,
    north: TileVariant,
    north_east: TileVariant,
    east: TileVariant,
    south_east: TileVariant,
    south: TileVariant,
)
    ensures
        resolved_sprites(center, north, north_east, east, south_east, south).1 == (TopSprite {
            center: if center == TileVariant::Wall {
                match WallModel::resolved(
                    south == TileVariant::Wall || south == TileVariant::StairN,
                    east == TileVariant::Wall || east == TileVariant::StairW,
                    south_east == TileVariant::Wall || south_east == TileVariant::StairW
                        || south_east == TileVariant::StairN,
                ) {
                    WallModel::Corner => TopSpriteCenter::WallCorner,
                    WallModel::Vertical => TopSpriteCenter::WallVertical,
                    WallModel::Horizontal => TopSpriteCenter::WallHorizontal,
                    WallModel::InverseCorner => TopSpriteCenter::WallInverseCorner,
                    WallModel::Full => TopSpriteCenter::WallFull,
                }
            } else if center == TileVariant::Door && east != TileVariant::Wall && south
                == TileVariant::Wall {
                TopSpriteCenter::Door
            } else if center == TileVariant::StairS {
                if east == TileVariant::Wall || east == TileVariant::StairS {
                    TopSpriteCenter::StairSFull
                } else {
                    TopSpriteCenter::StairS
                }
            } else {
                TopSpriteCenter::Blank
            },
            south: if south == TileVariant::Wall {
                if south_east == TileVariant::Wall || south_east == TileVariant::StairW {
                    TopSpriteSouth::WallHorizontal
                } else {
                    TopSpriteSouth::WallCorner
                }
            } else if south == TileVariant::Door {
                if center == TileVariant::Wall && south_east != TileVariant::Wall {
                    TopSpriteSouth::Door
                } else {
                    TopSpriteSouth::Blank
                }
            } else if south == TileVariant::StairN {
                if south_east == TileVariant::Wall || south_east == TileVariant::StairN {
                    TopSpriteSouth::StairNFull
                } else {
                    TopSpriteSouth::StairN
                }
            } else if south == TileVariant::StairE {
                if center == TileVariant::Wall || center == TileVariant::StairE {
                    TopSpriteSouth::StairEFull
                } else {
                    TopSpriteSouth::StairE
                }
            } else if south == TileVariant::StairW {
                if center == TileVariant::Wall || center == TileVariant::StairW {
                    TopSpriteSouth::StairWFull
                } else {
                    TopSpriteSouth::StairW
                }
            } else {
                TopSpriteSouth::Blank
            },
            south_east: if south_east == TileVariant::StairN && (south == TileVariant::Wall || south
                == TileVariant::StairN) {
                TopSpriteSouthEast::StairN
            } else {
                TopSpriteSouthEast::Blank
            },
            east: if east == TileVariant::Door && center == TileVariant::Wall {
                TopSpriteEast::Door
            } else if east == TileVariant::StairS && (center == TileVariant::Wall || center
                == TileVariant::StairS) {
                TopSpriteEast::StairS
            } else {
                TopSpriteEast::Blank
            },
        }).normalized(),
{
}

/// Normalizing a base sprite keeps its centre and south part, and drops
/// the east stair edge exactly where a full stair of the same direction at
/// the centre already covers it.
pub proof fn lemma_base_normalize_parts(s: BaseSprite)
    ensures
        s.normalized().center == s.center,
        s.normalized().south == s.south,
        s.normalized().east == (if (s.center == BaseSpriteCenter::StairNFull && s.east
            == BaseSpriteEast::StairN) || (s.center == BaseSpriteCenter::StairSFull && s.east
            == BaseSpriteEast::StairS) {
            BaseSpriteEast::Blank
        } else {
            s.east
        }),
{
}

/// The top sprite with its covered parts taken out: the south-east corner
/// under a full north stair along the south edge, and the east stair edge
/// under a full south stair at the centre.
pub open spec fn uncovered_top(s: TopSprite) -> TopSprite {
    TopSprite {
        center: s.center,
        south: s.south,
        south_east: if s.south == TopSpriteSouth::StairNFull {
            TopSpriteSouthEast::Blank
        } else {
            s.south_east
        },
        east: if s.center == TopSpriteCenter::StairSFull && s.east == TopSpriteEast::StairS {
            TopSpriteEast::Blank
        } else {
            s.east
        },
    }
}

/// The top sprites whose top layer draws nothing that the base layer does
/// not already show, and the canonical form of each: the empty sprite, or
/// the empty sprite with its south part.
pub proof fn lemma_top_normalize_hidden(s: TopSprite)
    ensures
        ({
            let c = s.center;
            let e = s.east;
            let so = s.south;
            let blank = TopSprite::blank();
            let south_only = TopSprite { south: so, ..TopSprite::blank() };
            &&& s.south_east == TopSpriteSouthEast::Blank ==> {
                &&& (c == TopSpriteCenter::WallCorner || c == TopSpriteCenter::WallHorizontal) && (
                so == TopSpriteSouth::Blank || so == TopSpriteSouth::Door) ==> s.normalized()
                    == blank
                &&& (c == TopSpriteCenter::WallVertical || c == TopSpriteCenter::WallInverseCorner)
                    && so == TopSpriteSouth::WallCorner ==> s.normalized() == blank
                &&& c == TopSpriteCenter::WallCorner && (e == TopSpriteEast::Blank || e
                    == TopSpriteEast::Door) && (so == TopSpriteSouth::StairEFull || so
                    == TopSpriteSouth::StairWFull) ==> s.normalized() == south_only
                &&& c == TopSpriteCenter::WallCorner && e == TopSpriteEast::StairS && so
                    == TopSpriteSouth::StairEFull ==> s.normalized() == south_only
                &&& (c == TopSpriteCenter::WallHorizontal || c == TopSpriteCenter::WallCorner) && so
                    == TopSpriteSouth::StairWFull ==> s.normalized() == south_only
                &&& c == TopSpriteCenter::WallFull && (e == TopSpriteEast::Blank || e
                    == TopSpriteEast::Door) && so == TopSpriteSouth::WallHorizontal
                    ==> s.normalized() == blank
                &&& (c == TopSpriteCenter::StairS || c == TopSpriteCenter::StairSFull) && (e
                    == TopSpriteEast::Blank || (c == TopSpriteCenter::StairSFull && e
                    == TopSpriteEast::StairS)) && (so == TopSpriteSouth::Blank || so
                    == TopSpriteSouth::StairE || so == TopSpriteSouth::StairW) ==> s.normalized()
                    == south_only
            }
        }),
{
}

/// Normalizing a top sprite takes out its covered parts, and changes it
/// further only where it is one of the sprites of
/// [`lemma_top_normalize_hidden`], whose top layer draws nothing that the
/// base layer does not show.
pub proof fn lemma_top_normalize_changes(s: TopSprite)
    ensures
        ({
            let t = uncovered_top(s);
            let c = t.center;
            let e = t.east;
            let so = t.south;
            s.normalized() != t ==> t.south_east == TopSpriteSouthEast::Blank && (((c
                == TopSpriteCenter::WallCorner || c == TopSpriteCenter::WallHorizontal) && (so
                == TopSpriteSouth::Blank || so == TopSpriteSouth::Door)) || ((c
                == TopSpriteCenter::WallVertical || c == TopSpriteCenter::WallInverseCorner) && so
                == TopSpriteSouth::WallCorner) || (c == TopSpriteCenter::WallCorner && (so
                == TopSpriteSouth::StairEFull || so == TopSpriteSouth::StairWFull)) || (c
                == TopSpriteCenter::WallHorizontal && so == TopSpriteSouth::StairWFull) || (c
                == TopSpriteCenter::WallFull && (e == TopSpriteEast::Blank || e
                == TopSpriteEast::Door) && so == TopSpriteSouth::WallHorizontal) || ((c
                == TopSpriteCenter::StairS || c == TopSpriteCenter::StairSFull) && e
                == TopSpriteEast::Blank && (so == TopSpriteSouth::Blank || so
                == TopSpriteSouth::StairE || so == TopSpriteSouth::StairW)))
        }),
{
}

// ---------------------------------------------------------------------------
// Names
// ---------------------------------------------------------------------------

impl TileVariant {
    /// The variant's name.
    pub open spec fn name_view(self) -> Seq<char> {
        match self {
            TileVariant::Empty => "Empty"@,
            TileVariant::Wall => "Wall"@,
            TileVariant::Door => "Door"@,
            TileVariant::StairN => "StairN"@,
            TileVariant::StairS => "StairS"@,
            TileVariant::StairE => "StairE"@,
            TileVariant::StairW => "StairW"@,
        }
    }

    pub fn name(&self) -> (r: &'static str)
        ensures
            r@ == self.name_view(),
    {
        match self {
            TileVariant::Empty => "Empty",
            TileVariant::Wall => "Wall",
            TileVariant::Door => "Door",
            TileVariant::StairN => "StairN",
            TileVariant::StairS => "StairS",
            TileVariant::StairE => "StairE",
            TileVariant::StairW => "StairW",
        }
    }
}

impl BaseSpriteCenter {
    /// The part's name as it appears in sprite names.
    pub open spec fn name_view(self) -> Seq<char> {
        match self {
            BaseSpriteCenter::Blank => "Empty"@,
            BaseSpriteCenter::WallCorner => "WallCorner"@,
            BaseSpriteCenter::WallVertical => "WallVertical"@,
            BaseSpriteCenter::WallHorizontal => "WallHorizontal"@,
            BaseSpriteCenter::WallInverseCorner => "WallInverseCorner"@,
            BaseSpriteCenter::WallFull => "WallFull"@,
            BaseSpriteCenter::StairN => "StairN"@,
            BaseSpriteCenter::StairNFull => "StairNFull"@,
            BaseSpriteCenter::StairS => "StairS"@,
            BaseSpriteCenter::StairSFull => "StairSFull"@,
            BaseSpriteCenter::StairE => "StairE"@,
            BaseSpriteCenter::StairEFull => "StairEFull"@,
            BaseSpriteCenter::StairW => "StairW"@,
            BaseSpriteCenter::StairWFull => "StairWFull"@,
        }
    }

    pub fn name(&self) -> (r: &'static str)
        ensures
            r@ == self.name_view(),
    {
        match self {
            BaseSpriteCenter::Blank => "Empty",
            BaseSpriteCenter::WallCorner => "WallCorner",
            BaseSpriteCenter::WallVertical => "WallVertical",
            BaseSpriteCenter::WallHorizontal => "WallHorizontal",
            BaseSpriteCenter::WallInverseCorner => "WallInverseCorner",
            BaseSpriteCenter::WallFull => "WallFull",
            BaseSpriteCenter::StairN => "StairN",
            BaseSpriteCenter::StairNFull => "StairNFull",
            BaseSpriteCenter::StairS => "StairS",
            BaseSpriteCenter::StairSFull => "StairSFull",
            BaseSpriteCenter::StairE => "StairE",
            BaseSpriteCenter::StairEFull => "StairEFull",
            BaseSpriteCenter::StairW => "StairW",
            BaseSpriteCenter::StairWFull => "StairWFull",
        }
    }
}

impl BaseSpriteEast {
    /// The part's name as it appears in sprite names.
    pub open spec fn name_view(self) -> Seq<char> {
        match self {
            BaseSpriteEast::Blank => ""@,
            BaseSpriteEast::Door => "_EastDoor"@,
            BaseSpriteEast::StairN => "_EastStairN"@,
            BaseSpriteEast::StairS => "_EastStairS"@,
        }
    }

    pub fn name(&self) -> (r: &'static str)
        ensures
            r@ == self.name_view(),
    {
        match self {
            BaseSpriteEast::Blank => "",
            BaseSpriteEast::Door => "_EastDoor",
            BaseSpriteEast::StairN => "_EastStairN",
            BaseSpriteEast::StairS => "_EastStairS",
        }
    }
}

impl BaseSpriteSouth {
    /// The part's name as it appears in sprite names.
    pub open spec fn name_view(self) -> Seq<char> {
        match self {
            BaseSpriteSouth::Blank => ""@,
            BaseSpriteSouth::Door => "_SouthDoor"@,
        }
    }

    pub fn name(&self) -> (r: &'static str)
        ensures
            r@ == self.name_view(),
    {
        match self {
            BaseSpriteSouth::Blank => "",
            BaseSpriteSouth::Door => "_SouthDoor",
        }
    }
}

impl TopSpriteCenter {
    /// The part's name as it appears in sprite names.
    pub open spec fn name_view(self) -> Seq<char> {
        match self {
            TopSpriteCenter::Blank => "Empty"@,
            TopSpriteCenter::WallCorner => "WallCorner"@,
            TopSpriteCenter::WallVertical => "WallVertical"@,
            TopSpriteCenter::WallHorizontal => "WallHorizontal"@,
            TopSpriteCenter::WallInverseCorner => "WallInverseCorner"@,
            TopSpriteCenter::WallFull => "WallFull"@,
            TopSpriteCenter::Door => "Door"@,
            TopSpriteCenter::StairS => "StairS"@,
            TopSpriteCenter::StairSFull => "StairSFull"@,
        }
    }

    pub fn name(&self) -> (r: &'static str)
        ensures
            r@ == self.name_view(),
    {
        match self {
            TopSpriteCenter::Blank => "Empty",
            TopSpriteCenter::WallCorner => "WallCorner",
            TopSpriteCenter::WallVertical => "WallVertical",
            TopSpriteCenter::WallHorizontal => "WallHorizontal",
            TopSpriteCenter::WallInverseCorner => "WallInverseCorner",
            TopSpriteCenter::WallFull => "WallFull",
            TopSpriteCenter::Door => "Door",
            TopSpriteCenter::StairS => "StairS",
            TopSpriteCenter::StairSFull => "StairSFull",
        }
    }
}

impl TopSpriteSouth {
    /// The part's name as it appears in sprite names.
    pub open spec fn name_view(self) -> Seq<char> {
        match self {
            TopSpriteSouth::Blank => ""@,
            TopSpriteSouth::Door => "_SouthDoor"@,
            TopSpriteSouth::WallCorner => "_SouthWallCorner"@,
            TopSpriteSouth::WallHorizontal => "_SouthWallHorizontal"@,
            TopSpriteSouth::StairN => "_SouthStairN"@,
            TopSpriteSouth::StairNFull => "_SouthStairNFull"@,
            TopSpriteSouth::StairE => "_SouthStairE"@,
            TopSpriteSouth::StairEFull => "_SouthStairEFull"@,
            TopSpriteSouth::StairW => "_SouthStairW"@,
            TopSpriteSouth::StairWFull => "_SouthStairWFull"@,
        }
    }

    pub fn name(&self) -> (r: &'static str)
        ensures
            r@ == self.name_view(),
    {
        match self {
            TopSpriteSouth::Blank => "",
            TopSpriteSouth::Door => "_SouthDoor",
            TopSpriteSouth::WallCorner => "_SouthWallCorner",
            TopSpriteSouth::WallHorizontal => "_SouthWallHorizontal",
            TopSpriteSouth::StairN => "_SouthStairN",
            TopSpriteSouth::StairNFull => "_SouthStairNFull",
            TopSpriteSouth::StairE => "_SouthStairE",
            TopSpriteSouth::StairEFull => "_SouthStairEFull",
            TopSpriteSouth::StairW => "_SouthStairW",
            TopSpriteSouth::StairWFull => "_SouthStairWFull",
        }
    }
}

impl TopSpriteSouthEast {
    /// The part's name as it appears in sprite names.
    pub open spec fn name_view(self) -> Seq<char> {
        match self {
            TopSpriteSouthEast::Blank => ""@,
            TopSpriteSouthEast::StairN => "_SouthEastStairN"@,
        }
    }

    pub fn name(&self) -> (r: &'static str)
        ensures
            r@ == self.name_view(),
    {
        match self {
            TopSpriteSouthEast::Blank => "",
            TopSpriteSouthEast::StairN => "_SouthEastStairN",
        }
    }
}

impl TopSpriteEast {
    /// The part's name as it appears in sprite names.
    pub open spec fn name_view(self) -> Seq<char> {
        match self {
            TopSpriteEast::Blank => ""@,
            TopSpriteEast::Door => "_EastDoor"@,
            TopSpriteEast::StairS => "_EastStairS"@,
        }
    }

    pub fn name(&self) -> (r: &'static str)
        ensures
            r@ == self.name_view(),
    {
        match self {
            TopSpriteEast::Blank => "",
            TopSpriteEast::Door => "_EastDoor",
            TopSpriteEast::StairS => "_EastStairS",
        }
    }
}

impl BaseSprite {
    /// The sprite's name: its center, east and south parts in that order.
    pub open spec fn name_view(self) -> Seq<char> {
        self.center.name_view() + self.east.name_view() + self.south.name_view()
    }

    pub fn name(&self) -> (r: String)
        ensures
            r@ == self.name_view(),
    {
        let mut r = String::from_str(self.center.name());
        r.append(self.east.name());
        r.append(self.south.name());
        r
    }
}

impl TopSprite {
    /// The sprite's name: its center, south, south-east and east parts in
    /// that order.
    pub open spec fn name_view(self) -> Seq<char> {
        self.center.name_view() + self.south.name_view() + self.south_east.name_view()
            + self.east.name_view()
    }

    pub fn name(&self) -> (r: String)
        ensures
            r@ == self.name_view(),
    {
        let mut r = String::from_str(self.center.name());
        r.append(self.south.name());
        r.append(self.south_east.name());
        r.append(self.east.name());
        r
    }
}

} // verus!
