//! The wall sprite offsets of a tile in the tile sheet, from the kinds of
//! the tile and of its east, south-east and south neighbours. Each tile is
//! drawn as two halves: the left half is resolved mirrored.
use crate::material::{kind_of, TileKind, TileMaterial, TileMaterialFlags};
use vstd::prelude::*;

verus! {

pub const EMPTY: u16 = 0;
pub const BASE_WALLCORNER: u16 = 1;
pub const BASE_WALLVERTICAL: u16 = 2;
pub const BASE_WALLCORNER_SOUTHDOOR: u16 = 3;
pub const BASE_WALLVERTICAL_SOUTHSTAIRN: u16 = 4;
pub const BASE_WALLHORIZONTAL: u16 = 5;
pub const BASE_WALLINVERSECORNER: u16 = 6;
pub const BASE_WALLHORIZONTAL_SOUTHDOOR: u16 = 7;
pub const BASE_WALLINVERSECORNER_SOUTHSTAIRN: u16 = 8;
pub const BASE_WALLFULL: u16 = 9;
pub const BASE_WALLFULL_SOUTHSTAIRNFULL: u16 = 10;
pub const BASE_WALLCORNER_EASTDOOR: u16 = 11;
pub const BASE_WALLVERTICAL_EASTDOOR: u16 = 12;
pub const BASE_WALLCORNER_EASTDOOR_SOUTHDOOR: u16 = 13;
pub const BASE_WALLVERTICAL_EASTDOOR_SOUTHSTAIRN: u16 = 14;
pub const BASE_WALLCORNER_EASTSTAIRN: u16 = 15;
pub const BASE_WALLVERTICAL_EASTSTAIRN: u16 = 16;
pub const BASE_WALLCORNER_EASTSTAIRN_SOUTHDOOR: u16 = 17;
pub const BASE_WALLVERTICAL_EASTSTAIRN_SOUTHSTAIRN: u16 = 18;
pub const BASE_WALLCORNER_EASTSTAIRS: u16 = 19;
pub const BASE_WALLVERTICAL_EASTSTAIRS: u16 = 20;
pub const BASE_WALLCORNER_EASTSTAIRS_SOUTHDOOR: u16 = 21;
pub const BASE_WALLVERTICAL_EASTSTAIRS_SOUTHSTAIRN: u16 = 22;
pub const BASE_WALLVERTICAL_EASTSTAIRS_SOUTHSTAIRNFULL: u16 = 23;
pub const BASE_STAIRN: u16 = 24;
pub const BASE_STAIRNFULL: u16 = 25;
pub const BASE_STAIRS: u16 = 26;
pub const BASE_STAIRSFULL: u16 = 27;
pub const BASE_STAIRE: u16 = 28;
pub const BASE_STAIREFULL: u16 = 29;
pub const BASE_STAIRW: u16 = 30;
pub const BASE_STAIRWFULL: u16 = 31;
pub const TOP_EMPTY_SOUTHWALLCORNER: u16 = 32;
pub const TOP_EMPTY_SOUTHSTAIRN: u16 = 33;
pub const TOP_EMPTY_SOUTHSTAIRE: u16 = 34;
pub const TOP_EMPTY_SOUTHSTAIRW: u16 = 35;
pub const TOP_EMPTY_SOUTHWALLHORIZONTAL: u16 = 36;
pub const TOP_EMPTY_SOUTHSTAIRNFULL: u16 = 37;
pub const TOP_EMPTY_SOUTHWALLCORNER_SOUTHEASTSTAIRN: u16 = 38;
pub const TOP_WALLVERTICAL_SOUTHSTAIRN: u16 = 39;
pub const TOP_EMPTY_SOUTHSTAIREFULL: u16 = 40;
pub const TOP_EMPTY_SOUTHSTAIRWFULL: u16 = 41;
pub const TOP_WALLVERTICAL_SOUTHWALLHORIZONTAL: u16 = 42;
pub const TOP_WALLVERTICAL_SOUTHSTAIRNFULL: u16 = 43;
pub const TOP_WALLVERTICAL_SOUTHWALLCORNER_SOUTHEASTSTAIRN: u16 = 44;
pub const TOP_WALLINVERSECORNER_SOUTHSTAIRN: u16 = 45;
pub const TOP_WALLHORIZONTAL_SOUTHSTAIREFULL: u16 = 46;
pub const TOP_WALLFULL_SOUTHSTAIRNFULL: u16 = 47;
pub const TOP_WALLINVERSECORNER_SOUTHWALLCORNER_SOUTHEASTSTAIRN: u16 = 48;
pub const TOP_WALLINVERSECORNER_SOUTHWALLHORIZONTAL: u16 = 49;
pub const TOP_WALLVERTICAL_SOUTHWALLCORNER_EASTDOOR: u16 = 50;
pub const TOP_WALLVERTICAL_SOUTHSTAIRN_EASTDOOR: u16 = 51;
pub const TOP_EMPTY_SOUTHSTAIREFULL_EASTDOOR: u16 = 52;
pub const TOP_EMPTY_SOUTHSTAIRWFULL_EASTDOOR: u16 = 53;
pub const TOP_WALLVERTICAL_SOUTHWALLHORIZONTAL_EASTDOOR: u16 = 54;
pub const TOP_WALLVERTICAL_SOUTHSTAIRNFULL_EASTDOOR: u16 = 55;
pub const TOP_WALLVERTICAL_SOUTHWALLCORNER_SOUTHEASTSTAIRN_EASTDOOR: u16 = 56;
pub const TOP_DOOR_SOUTHWALLCORNER: u16 = 57;
pub const TOP_DOOR_SOUTHWALLHORIZONTAL: u16 = 58;
pub const TOP_DOOR_SOUTHWALLCORNER_SOUTHEASTSTAIRN: u16 = 59;
pub const TOP_STAIRS_SOUTHWALLCORNER: u16 = 60;
pub const TOP_STAIRS_SOUTHWALLHORIZONTAL: u16 = 61;
pub const TOP_STAIRS_SOUTHWALLCORNER_SOUTHEASTSTAIRN: u16 = 62;
pub const TOP_STAIRSFULL_SOUTHWALLCORNER: u16 = 63;
pub const TOP_STAIRSFULL_SOUTHSTAIRN: u16 = 64;
pub const TOP_STAIRSFULL_SOUTHWALLHORIZONTAL: u16 = 65;
pub const TOP_STAIRSFULL_SOUTHWALLCORNER_SOUTHEASTSTAIRN: u16 = 66;

/// The kind of a tile as far as wall sprites are concerned.
#[derive(Hash, Eq, PartialEq, Clone, Copy, Debug, Structural)]
pub enum TileVariant {
    Empty,
    Wall,
    Door,
    StairN,
    StairS,
    StairE,
    StairW,
}

impl TileVariant {
    /// The variant mirrored left to right: east and west stairs swap.
    pub open spec fn flipped(self) -> TileVariant {
        match self {
            TileVariant::StairE => TileVariant::StairW,
            TileVariant::StairW => TileVariant::StairE,
            _ => self,
        }
    }

    pub fn flip(&self) -> (r: Self)
        ensures
            r == self.flipped(),
    {
        match self {
            TileVariant::StairE => TileVariant::StairW,
            TileVariant::StairW => TileVariant::StairE,
            _ => *self,
        }
    }
}

/// The base sprite offset of a tile half.
pub open spec fn base_offset(
    center: TileVariant,
    east: TileVariant,
    south_east: TileVariant,
    south: TileVariant,
) -> u16 {
    match (center, east, south_east, south) {
        (TileVariant::Door | TileVariant::Empty, _, _, _) => EMPTY,
        (TileVariant::Wall, TileVariant::Empty | TileVariant::StairE, _, TileVariant::Empty | TileVariant::StairE | TileVariant::StairS | TileVariant::StairW)
        | (TileVariant::Wall, TileVariant::Empty | TileVariant::StairE, TileVariant::Wall, TileVariant::Door) => BASE_WALLCORNER,
        (TileVariant::Wall, TileVariant::Empty | TileVariant::StairE, _, TileVariant::Wall) => BASE_WALLVERTICAL,
        (TileVariant::Wall, TileVariant::Empty | TileVariant::StairE, TileVariant::Door | TileVariant::Empty | TileVariant::StairE | TileVariant::StairN | TileVariant::StairS | TileVariant::StairW, TileVariant::Door) => {
            BASE_WALLCORNER_SOUTHDOOR
        }
        (TileVariant::Wall, TileVariant::Empty | TileVariant::StairE, _, TileVariant::StairN) => BASE_WALLVERTICAL_SOUTHSTAIRN,
        (TileVariant::Wall, TileVariant::StairW | TileVariant::Wall, _, TileVariant::Empty | TileVariant::StairE | TileVariant::StairS | TileVariant::StairW)
        | (TileVariant::Wall, TileVariant::StairW | TileVariant::Wall, TileVariant::Wall, TileVariant::Door) => BASE_WALLHORIZONTAL,
        (TileVariant::Wall, TileVariant::StairW | TileVariant::Wall, TileVariant::Door | TileVariant::Empty | TileVariant::StairE | TileVariant::StairN | TileVariant::StairS | TileVariant::StairW, TileVariant::Wall) => {
            BASE_WALLINVERSECORNER
        }
        (TileVariant::Wall, TileVariant::StairW | TileVariant::Wall, TileVariant::Door | TileVariant::Empty | TileVariant::StairE | TileVariant::StairN | TileVariant::StairS | TileVariant::StairW, TileVariant::Door) => {
            BASE_WALLHORIZONTAL_SOUTHDOOR
        }
        (TileVariant::Wall, TileVariant::StairW | TileVariant::Wall, TileVariant::Door | TileVariant::Empty | TileVariant::StairE | TileVariant::StairS | TileVariant::StairW, TileVariant::StairN) => {
            BASE_WALLINVERSECORNER_SOUTHSTAIRN
        }
        (TileVariant::Wall, TileVariant::StairW | TileVariant::Wall, TileVariant::Wall, TileVariant::Wall) => BASE_WALLFULL,
        (TileVariant::Wall, TileVariant::StairW | TileVariant::Wall, TileVariant::StairN | TileVariant::Wall, TileVariant::StairN) => BASE_WALLFULL_SOUTHSTAIRNFULL,
        (TileVariant::Wall, TileVariant::Door, _, TileVariant::Empty | TileVariant::StairE | TileVariant::StairS | TileVariant::StairW) | (TileVariant::Wall, TileVariant::Door, TileVariant::Wall, TileVariant::Door) => {
            BASE_WALLCORNER_EASTDOOR
        }
        (TileVariant::Wall, TileVariant::Door, _, TileVariant::Wall) => BASE_WALLVERTICAL_EASTDOOR,
        (TileVariant::Wall, TileVariant::Door, TileVariant::Door | TileVariant::Empty | TileVariant::StairE | TileVariant::StairN | TileVariant::StairS | TileVariant::StairW, TileVariant::Door) => {
            BASE_WALLCORNER_EASTDOOR_SOUTHDOOR
        }
        (TileVariant::Wall, TileVariant::Door, _, TileVariant::StairN) => BASE_WALLVERTICAL_EASTDOOR_SOUTHSTAIRN,
        (TileVariant::Wall, TileVariant::StairN, _, TileVariant::Empty | TileVariant::StairE | TileVariant::StairS | TileVariant::StairW) | (TileVariant::Wall, TileVariant::StairN, TileVariant::Wall, TileVariant::Door) => {
            BASE_WALLCORNER_EASTSTAIRN
        }
        (TileVariant::Wall, TileVariant::StairN, _, TileVariant::Wall) => BASE_WALLVERTICAL_EASTSTAIRN,
        (TileVariant::Wall, TileVariant::StairN, TileVariant::Door | TileVariant::Empty | TileVariant::StairE | TileVariant::StairN | TileVariant::StairS | TileVariant::StairW, TileVariant::Door) => {
            BASE_WALLCORNER_EASTSTAIRN_SOUTHDOOR
        }
        (TileVariant::Wall, TileVariant::StairN, _, TileVariant::StairN) => BASE_WALLVERTICAL_EASTSTAIRN_SOUTHSTAIRN,
        (TileVariant::Wall, TileVariant::StairS, _, TileVariant::Empty | TileVariant::StairE | TileVariant::StairS | TileVariant::StairW) | (TileVariant::Wall, TileVariant::StairS, TileVariant::Wall, TileVariant::Door) => {
            BASE_WALLCORNER_EASTSTAIRS
        }
        (TileVariant::Wall, TileVariant::StairS, _, TileVariant::Wall) => BASE_WALLVERTICAL_EASTSTAIRS,
        (TileVariant::Wall, TileVariant::StairS, TileVariant::Door | TileVariant::Empty | TileVariant::StairE | TileVariant::StairN | TileVariant::StairS | TileVariant::StairW, TileVariant::Door) => {
            BASE_WALLCORNER_EASTSTAIRS_SOUTHDOOR
        }
        (TileVariant::Wall, TileVariant::StairS, TileVariant::Door | TileVariant::Empty | TileVariant::StairE | TileVariant::StairS | TileVariant::StairW, TileVariant::StairN) => {
            BASE_WALLVERTICAL_EASTSTAIRS_SOUTHSTAIRN
        }
        (TileVariant::Wall, TileVariant::StairS, TileVariant::StairN | TileVariant::Wall, TileVariant::StairN) => BASE_WALLVERTICAL_EASTSTAIRS_SOUTHSTAIRNFULL,
        (TileVariant::StairN, TileVariant::Door | TileVariant::Empty | TileVariant::StairE | TileVariant::StairS | TileVariant::StairW, _, _) => BASE_STAIRN,
        (TileVariant::StairN, TileVariant::StairN | TileVariant::Wall, _, _) => BASE_STAIRNFULL,
        (TileVariant::StairS, TileVariant::Door | TileVariant::Empty | TileVariant::StairE | TileVariant::StairN | TileVariant::StairW, _, _) => BASE_STAIRS,
        (TileVariant::StairS, TileVariant::StairS | TileVariant::Wall, _, _) => BASE_STAIRSFULL,
        (TileVariant::StairE, _, _, TileVariant::Door | TileVariant::Empty | TileVariant::StairN | TileVariant::StairS | TileVariant::StairW) => BASE_STAIRE,
        (TileVariant::StairE, _, _, TileVariant::StairE | TileVariant::Wall) => BASE_STAIREFULL,
        (TileVariant::StairW, _, _, TileVariant::Door | TileVariant::Empty | TileVariant::StairE | TileVariant::StairN | TileVariant::StairS) => BASE_STAIRW,
        (TileVariant::StairW, _, _, TileVariant::StairW | TileVariant::Wall) => BASE_STAIRWFULL,
    }
}

pub fn resolve_base(
    center: TileVariant,
    east: TileVariant,
    south_east: TileVariant,
    south: TileVariant,
) -> (r: u16)
    ensures
        r == base_offset(center, east, south_east, south),
{
    match (center, east, south_east, south) {
        (TileVariant::Door | TileVariant::Empty, _, _, _) => EMPTY,
        (TileVariant::Wall, TileVariant::Empty | TileVariant::StairE, _, TileVariant::Empty | TileVariant::StairE | TileVariant::StairS | TileVariant::StairW)
        | (TileVariant::Wall, TileVariant::Empty | TileVariant::StairE, TileVariant::Wall, TileVariant::Door) => BASE_WALLCORNER,
        (TileVariant::Wall, TileVariant::Empty | TileVariant::StairE, _, TileVariant::Wall) => BASE_WALLVERTICAL,
        (TileVariant::Wall, TileVariant::Empty | TileVariant::StairE, TileVariant::Door | TileVariant::Empty | TileVariant::StairE | TileVariant::StairN | TileVariant::StairS | TileVariant::StairW, TileVariant::Door) => {
            BASE_WALLCORNER_SOUTHDOOR
        }
        (TileVariant::Wall, TileVariant::Empty | TileVariant::StairE, _, TileVariant::StairN) => BASE_WALLVERTICAL_SOUTHSTAIRN,
        (TileVariant::Wall, TileVariant::StairW | TileVariant::Wall, _, TileVariant::Empty | TileVariant::StairE | TileVariant::StairS | TileVariant::StairW)
        | (TileVariant::Wall, TileVariant::StairW | TileVariant::Wall, TileVariant::Wall, TileVariant::Door) => BASE_WALLHORIZONTAL,
        (TileVariant::Wall, TileVariant::StairW | TileVariant::Wall, TileVariant::Door | TileVariant::Empty | TileVariant::StairE | TileVariant::StairN | TileVariant::StairS | TileVariant::StairW, TileVariant::Wall) => {
            BASE_WALLINVERSECORNER
        }
        (TileVariant::Wall, TileVariant::StairW | TileVariant::Wall, TileVariant::Door | TileVariant::Empty | TileVariant::StairE | TileVariant::StairN | TileVariant::StairS | TileVariant::StairW, TileVariant::Door) => {
            BASE_WALLHORIZONTAL_SOUTHDOOR
        }
        (TileVariant::Wall, TileVariant::StairW | TileVariant::Wall, TileVariant::Door | TileVariant::Empty | TileVariant::StairE | TileVariant::StairS | TileVariant::StairW, TileVariant::StairN) => {
            BASE_WALLINVERSECORNER_SOUTHSTAIRN
        }
        (TileVariant::Wall, TileVariant::StairW | TileVariant::Wall, TileVariant::Wall, TileVariant::Wall) => BASE_WALLFULL,
        (TileVariant::Wall, TileVariant::StairW | TileVariant::Wall, TileVariant::StairN | TileVariant::Wall, TileVariant::StairN) => BASE_WALLFULL_SOUTHSTAIRNFULL,
        (TileVariant::Wall, TileVariant::Door, _, TileVariant::Empty | TileVariant::StairE | TileVariant::StairS | TileVariant::StairW) | (TileVariant::Wall, TileVariant::Door, TileVariant::Wall, TileVariant::Door) => {
            BASE_WALLCORNER_EASTDOOR
        }
        (TileVariant::Wall, TileVariant::Door, _, TileVariant::Wall) => BASE_WALLVERTICAL_EASTDOOR,
        (TileVariant::Wall, TileVariant::Door, TileVariant::Door | TileVariant::Empty | TileVariant::StairE | TileVariant::StairN | TileVariant::StairS | TileVariant::StairW, TileVariant::Door) => {
            BASE_WALLCORNER_EASTDOOR_SOUTHDOOR
        }
        (TileVariant::Wall, TileVariant::Door, _, TileVariant::StairN) => BASE_WALLVERTICAL_EASTDOOR_SOUTHSTAIRN,
        (TileVariant::Wall, TileVariant::StairN, _, TileVariant::Empty | TileVariant::StairE | TileVariant::StairS | TileVariant::StairW) | (TileVariant::Wall, TileVariant::StairN, TileVariant::Wall, TileVariant::Door) => {
            BASE_WALLCORNER_EASTSTAIRN
        }
        (TileVariant::Wall, TileVariant::StairN, _, TileVariant::Wall) => BASE_WALLVERTICAL_EASTSTAIRN,
        (TileVariant::Wall, TileVariant::StairN, TileVariant::Door | TileVariant::Empty | TileVariant::StairE | TileVariant::StairN | TileVariant::StairS | TileVariant::StairW, TileVariant::Door) => {
            BASE_WALLCORNER_EASTSTAIRN_SOUTHDOOR
        }
        (TileVariant::Wall, TileVariant::StairN, _, TileVariant::StairN) => BASE_WALLVERTICAL_EASTSTAIRN_SOUTHSTAIRN,
        (TileVariant::Wall, TileVariant::StairS, _, TileVariant::Empty | TileVariant::StairE | TileVariant::StairS | TileVariant::StairW) | (TileVariant::Wall, TileVariant::StairS, TileVariant::Wall, TileVariant::Door) => {
            BASE_WALLCORNER_EASTSTAIRS
        }
        (TileVariant::Wall, TileVariant::StairS, _, TileVariant::Wall) => BASE_WALLVERTICAL_EASTSTAIRS,
        (TileVariant::Wall, TileVariant::StairS, TileVariant::Door | TileVariant::Empty | TileVariant::StairE | TileVariant::StairN | TileVariant::StairS | TileVariant::StairW, TileVariant::Door) => {
            BASE_WALLCORNER_EASTSTAIRS_SOUTHDOOR
        }
        (TileVariant::Wall, TileVariant::StairS, TileVariant::Door | TileVariant::Empty | TileVariant::StairE | TileVariant::StairS | TileVariant::StairW, TileVariant::StairN) => {
            BASE_WALLVERTICAL_EASTSTAIRS_SOUTHSTAIRN
        }
        (TileVariant::Wall, TileVariant::StairS, TileVariant::StairN | TileVariant::Wall, TileVariant::StairN) => BASE_WALLVERTICAL_EASTSTAIRS_SOUTHSTAIRNFULL,
        (TileVariant::StairN, TileVariant::Door | TileVariant::Empty | TileVariant::StairE | TileVariant::StairS | TileVariant::StairW, _, _) => BASE_STAIRN,
        (TileVariant::StairN, TileVariant::StairN | TileVariant::Wall, _, _) => BASE_STAIRNFULL,
        (TileVariant::StairS, TileVariant::Door | TileVariant::Empty | TileVariant::StairE | TileVariant::StairN | TileVariant::StairW, _, _) => BASE_STAIRS,
        (TileVariant::StairS, TileVariant::StairS | TileVariant::Wall, _, _) => BASE_STAIRSFULL,
        (TileVariant::StairE, _, _, TileVariant::Door | TileVariant::Empty | TileVariant::StairN | TileVariant::StairS | TileVariant::StairW) => BASE_STAIRE,
        (TileVariant::StairE, _, _, TileVariant::StairE | TileVariant::Wall) => BASE_STAIREFULL,
        (TileVariant::StairW, _, _, TileVariant::Door | TileVariant::Empty | TileVariant::StairE | TileVariant::StairN | TileVariant::StairS) => BASE_STAIRW,
        (TileVariant::StairW, _, _, TileVariant::StairW | TileVariant::Wall) => BASE_STAIRWFULL,
    }
}

/// The top sprite offset of a tile half.
pub open spec fn top_offset_of(
    center: TileVariant,
    east: TileVariant,
    south_east: TileVariant,
    south: TileVariant,
) -> u16 {
    match (center, east, south_east, south) {
        (_, _, _, TileVariant::Door | TileVariant::Empty | TileVariant::StairS)
        | (
            TileVariant::Wall,
            TileVariant::Empty | TileVariant::StairE | TileVariant::StairN | TileVariant::StairS | TileVariant::StairW | TileVariant::Wall,
            TileVariant::Door | TileVariant::Empty | TileVariant::StairE | TileVariant::StairS,
            TileVariant::Wall,
        )
        | (TileVariant::Wall, TileVariant::StairW | TileVariant::Wall, TileVariant::Wall, TileVariant::Wall)
        | (TileVariant::StairS, _, _, TileVariant::StairE | TileVariant::StairW) => EMPTY,
        (
            TileVariant::Empty | TileVariant::StairE | TileVariant::StairN | TileVariant::StairW,
            TileVariant::Door | TileVariant::Empty | TileVariant::StairE | TileVariant::StairN | TileVariant::StairS | TileVariant::StairW,
            TileVariant::Door | TileVariant::Empty | TileVariant::StairE | TileVariant::StairS,
            TileVariant::Wall,
        )
        | (TileVariant::Door | TileVariant::Empty | TileVariant::StairE | TileVariant::StairN | TileVariant::StairW, TileVariant::Wall, TileVariant::Door | TileVariant::Empty | TileVariant::StairE | TileVariant::StairS, TileVariant::Wall) => {
            TOP_EMPTY_SOUTHWALLCORNER
        }
        (
            TileVariant::Door | TileVariant::Empty | TileVariant::StairE | TileVariant::StairN | TileVariant::StairS | TileVariant::StairW,
            TileVariant::Door | TileVariant::Empty | TileVariant::StairE | TileVariant::StairN | TileVariant::StairW,
            TileVariant::Door | TileVariant::Empty | TileVariant::StairE | TileVariant::StairS | TileVariant::StairW,
            TileVariant::StairN,
        )
        | (
            TileVariant::Door | TileVariant::Empty | TileVariant::StairE | TileVariant::StairN | TileVariant::StairW,
            TileVariant::StairS | TileVariant::Wall,
            TileVariant::Door | TileVariant::Empty | TileVariant::StairE | TileVariant::StairS | TileVariant::StairW,
            TileVariant::StairN,
        ) => TOP_EMPTY_SOUTHSTAIRN,
        (TileVariant::Door | TileVariant::Empty | TileVariant::StairN | TileVariant::StairW, _, _, TileVariant::StairE) => TOP_EMPTY_SOUTHSTAIRE,
        (TileVariant::Door | TileVariant::Empty | TileVariant::StairE | TileVariant::StairN, _, _, TileVariant::StairW) => TOP_EMPTY_SOUTHSTAIRW,
        (
            TileVariant::Empty | TileVariant::StairE | TileVariant::StairN | TileVariant::StairW,
            TileVariant::Door | TileVariant::Empty | TileVariant::StairE | TileVariant::StairN | TileVariant::StairS | TileVariant::StairW,
            TileVariant::StairW | TileVariant::Wall,
            TileVariant::Wall,
        )
        | (TileVariant::Door | TileVariant::Empty | TileVariant::StairE | TileVariant::StairN | TileVariant::StairW, TileVariant::Wall, TileVariant::StairW | TileVariant::Wall, TileVariant::Wall) => {
            TOP_EMPTY_SOUTHWALLHORIZONTAL
        }
        (TileVariant::Door | TileVariant::Empty | TileVariant::StairE | TileVariant::StairN | TileVariant::StairS | TileVariant::StairW, _, TileVariant::StairN | TileVariant::Wall, TileVariant::StairN) => {
            TOP_EMPTY_SOUTHSTAIRNFULL
        }
        (
            TileVariant::Empty | TileVariant::StairE | TileVariant::StairN | TileVariant::StairW,
            TileVariant::Door | TileVariant::Empty | TileVariant::StairE | TileVariant::StairN | TileVariant::StairS | TileVariant::StairW,
            TileVariant::StairN,
            TileVariant::Wall,
        )
        | (TileVariant::Door | TileVariant::Empty | TileVariant::StairE | TileVariant::StairN | TileVariant::StairW, TileVariant::Wall, TileVariant::StairN, TileVariant::Wall) => {
            TOP_EMPTY_SOUTHWALLCORNER_SOUTHEASTSTAIRN
        }
        (
            TileVariant::Wall,
            TileVariant::Empty | TileVariant::StairE | TileVariant::StairN | TileVariant::StairS,
            TileVariant::Door | TileVariant::Empty | TileVariant::StairE | TileVariant::StairS | TileVariant::StairW,
            TileVariant::StairN,
        ) => TOP_WALLVERTICAL_SOUTHSTAIRN,
        (TileVariant::StairE | TileVariant::Wall, TileVariant::Empty | TileVariant::StairE | TileVariant::StairN | TileVariant::StairS, _, TileVariant::StairE)
        | (TileVariant::StairE, TileVariant::Door | TileVariant::StairW | TileVariant::Wall, _, TileVariant::StairE) => TOP_EMPTY_SOUTHSTAIREFULL,
        (TileVariant::StairW | TileVariant::Wall, TileVariant::Empty | TileVariant::StairE | TileVariant::StairN | TileVariant::StairS | TileVariant::StairW | TileVariant::Wall, _, TileVariant::StairW)
        | (TileVariant::StairW, TileVariant::Door, _, TileVariant::StairW) => TOP_EMPTY_SOUTHSTAIRWFULL,
        (TileVariant::Wall, TileVariant::Empty | TileVariant::StairE | TileVariant::StairN | TileVariant::StairS, TileVariant::StairW | TileVariant::Wall, TileVariant::Wall) => {
            TOP_WALLVERTICAL_SOUTHWALLHORIZONTAL
        }
        (TileVariant::Wall, TileVariant::Empty | TileVariant::StairE | TileVariant::StairN | TileVariant::StairS, TileVariant::StairN | TileVariant::Wall, TileVariant::StairN) => {
            TOP_WALLVERTICAL_SOUTHSTAIRNFULL
        }
        (TileVariant::Wall, TileVariant::Empty | TileVariant::StairE | TileVariant::StairN | TileVariant::StairS, TileVariant::StairN, TileVariant::Wall) => {
            TOP_WALLVERTICAL_SOUTHWALLCORNER_SOUTHEASTSTAIRN
        }
        (TileVariant::Wall, TileVariant::StairW | TileVariant::Wall, TileVariant::Door | TileVariant::Empty | TileVariant::StairE | TileVariant::StairS | TileVariant::StairW, TileVariant::StairN) => {
            TOP_WALLINVERSECORNER_SOUTHSTAIRN
        }
        (TileVariant::Wall, TileVariant::StairW | TileVariant::Wall, _, TileVariant::StairE) => TOP_WALLHORIZONTAL_SOUTHSTAIREFULL,
        (TileVariant::Wall, TileVariant::StairW | TileVariant::Wall, TileVariant::StairN | TileVariant::Wall, TileVariant::StairN) => TOP_WALLFULL_SOUTHSTAIRNFULL,
        (TileVariant::Wall, TileVariant::StairW | TileVariant::Wall, TileVariant::StairN, TileVariant::Wall) => {
            TOP_WALLINVERSECORNER_SOUTHWALLCORNER_SOUTHEASTSTAIRN
        }
        (TileVariant::Wall, TileVariant::StairW | TileVariant::Wall, TileVariant::StairW, TileVariant::Wall) => TOP_WALLINVERSECORNER_SOUTHWALLHORIZONTAL,
        (TileVariant::Wall, TileVariant::Door, TileVariant::Door | TileVariant::Empty | TileVariant::StairE | TileVariant::StairS, TileVariant::Wall) => {
            TOP_WALLVERTICAL_SOUTHWALLCORNER_EASTDOOR
        }
        (TileVariant::Wall, TileVariant::Door, TileVariant::Door | TileVariant::Empty | TileVariant::StairE | TileVariant::StairS | TileVariant::StairW, TileVariant::StairN) => {
            TOP_WALLVERTICAL_SOUTHSTAIRN_EASTDOOR
        }
        (TileVariant::Wall, TileVariant::Door, _, TileVariant::StairE) => TOP_EMPTY_SOUTHSTAIREFULL_EASTDOOR,
        (TileVariant::Wall, TileVariant::Door, _, TileVariant::StairW) => TOP_EMPTY_SOUTHSTAIRWFULL_EASTDOOR,
        (TileVariant::Wall, TileVariant::Door, TileVariant::StairW | TileVariant::Wall, TileVariant::Wall) => TOP_WALLVERTICAL_SOUTHWALLHORIZONTAL_EASTDOOR,
        (TileVariant::Wall, TileVariant::Door, TileVariant::StairN | TileVariant::Wall, TileVariant::StairN) => TOP_WALLVERTICAL_SOUTHSTAIRNFULL_EASTDOOR,
        (TileVariant::Wall, TileVariant::Door, TileVariant::StairN, TileVariant::Wall) => TOP_WALLVERTICAL_SOUTHWALLCORNER_SOUTHEASTSTAIRN_EASTDOOR,
        (
            TileVariant::Door,
            TileVariant::Door | TileVariant::Empty | TileVariant::StairE | TileVariant::StairN | TileVariant::StairS | TileVariant::StairW,
            TileVariant::Door | TileVariant::Empty | TileVariant::StairE | TileVariant::StairS,
            TileVariant::Wall,
        ) => TOP_DOOR_SOUTHWALLCORNER,
        (TileVariant::Door, TileVariant::Door | TileVariant::Empty | TileVariant::StairE | TileVariant::StairN | TileVariant::StairS | TileVariant::StairW, TileVariant::StairW | TileVariant::Wall, TileVariant::Wall) => {
            TOP_DOOR_SOUTHWALLHORIZONTAL
        }
        (TileVariant::Door, TileVariant::Door | TileVariant::Empty | TileVariant::StairE | TileVariant::StairN | TileVariant::StairS | TileVariant::StairW, TileVariant::StairN, TileVariant::Wall) => {
            TOP_DOOR_SOUTHWALLCORNER_SOUTHEASTSTAIRN
        }
        (TileVariant::StairS, TileVariant::Door | TileVariant::Empty | TileVariant::StairE | TileVariant::StairN | TileVariant::StairW, TileVariant::Door | TileVariant::Empty | TileVariant::StairE | TileVariant::StairS, TileVariant::Wall) => {
            TOP_STAIRS_SOUTHWALLCORNER
        }
        (TileVariant::StairS, TileVariant::Door | TileVariant::Empty | TileVariant::StairE | TileVariant::StairN | TileVariant::StairW, TileVariant::StairW | TileVariant::Wall, TileVariant::Wall) => {
            TOP_STAIRS_SOUTHWALLHORIZONTAL
        }
        (TileVariant::StairS, TileVariant::Door | TileVariant::Empty | TileVariant::StairE | TileVariant::StairN | TileVariant::StairW, TileVariant::StairN, TileVariant::Wall) => {
            TOP_STAIRS_SOUTHWALLCORNER_SOUTHEASTSTAIRN
        }
        (TileVariant::StairS, TileVariant::StairS | TileVariant::Wall, TileVariant::Door | TileVariant::Empty | TileVariant::StairE | TileVariant::StairS, TileVariant::Wall) => {
            TOP_STAIRSFULL_SOUTHWALLCORNER
        }
        (TileVariant::StairS, TileVariant::StairS | TileVariant::Wall, TileVariant::Door | TileVariant::Empty | TileVariant::StairE | TileVariant::StairS | TileVariant::StairW, TileVariant::StairN) => {
            TOP_STAIRSFULL_SOUTHSTAIRN
        }
        (TileVariant::StairS, TileVariant::StairS | TileVariant::Wall, TileVariant::StairW | TileVariant::Wall, TileVariant::Wall) => TOP_STAIRSFULL_SOUTHWALLHORIZONTAL,
        (TileVariant::StairS, TileVariant::StairS | TileVariant::Wall, TileVariant::StairN, TileVariant::Wall) => TOP_STAIRSFULL_SOUTHWALLCORNER_SOUTHEASTSTAIRN,
    }
}

pub fn resolve_top(
    center: TileVariant,
    east: TileVariant,
    south_east: TileVariant,
    south: TileVariant,
) -> (r: u16)
    ensures
        r == top_offset_of(center, east, south_east, south),
{
    match (center, east, south_east, south) {
        (_, _, _, TileVariant::Door | TileVariant::Empty | TileVariant::StairS)
        | (
            TileVariant::Wall,
            TileVariant::Empty | TileVariant::StairE | TileVariant::StairN | TileVariant::StairS | TileVariant::StairW | TileVariant::Wall,
            TileVariant::Door | TileVariant::Empty | TileVariant::StairE | TileVariant::StairS,
            TileVariant::Wall,
        )
        | (TileVariant::Wall, TileVariant::StairW | TileVariant::Wall, TileVariant::Wall, TileVariant::Wall)
        | (TileVariant::StairS, _, _, TileVariant::StairE | TileVariant::StairW) => EMPTY,
        (
            TileVariant::Empty | TileVariant::StairE | TileVariant::StairN | TileVariant::StairW,
            TileVariant::Door | TileVariant::Empty | TileVariant::StairE | TileVariant::StairN | TileVariant::StairS | TileVariant::StairW,
            TileVariant::Door | TileVariant::Empty | TileVariant::StairE | TileVariant::StairS,
            TileVariant::Wall,
        )
        | (TileVariant::Door | TileVariant::Empty | TileVariant::StairE | TileVariant::StairN | TileVariant::StairW, TileVariant::Wall, TileVariant::Door | TileVariant::Empty | TileVariant::StairE | TileVariant::StairS, TileVariant::Wall) => {
            TOP_EMPTY_SOUTHWALLCORNER
        }
        (
            TileVariant::Door | TileVariant::Empty | TileVariant::StairE | TileVariant::StairN | TileVariant::StairS | TileVariant::StairW,
            TileVariant::Door | TileVariant::Empty | TileVariant::StairE | TileVariant::StairN | TileVariant::StairW,
            TileVariant::Door | TileVariant::Empty | TileVariant::StairE | TileVariant::StairS | TileVariant::StairW,
            TileVariant::StairN,
        )
        | (
            TileVariant::Door | TileVariant::Empty | TileVariant::StairE | TileVariant::StairN | TileVariant::StairW,
            TileVariant::StairS | TileVariant::Wall,
            TileVariant::Door | TileVariant::Empty | TileVariant::StairE | TileVariant::StairS | TileVariant::StairW,
            TileVariant::StairN,
        ) => TOP_EMPTY_SOUTHSTAIRN,
        (TileVariant::Door | TileVariant::Empty | TileVariant::StairN | TileVariant::StairW, _, _, TileVariant::StairE) => TOP_EMPTY_SOUTHSTAIRE,
        (TileVariant::Door | TileVariant::Empty | TileVariant::StairE | TileVariant::StairN, _, _, TileVariant::StairW) => TOP_EMPTY_SOUTHSTAIRW,
        (
            TileVariant::Empty | TileVariant::StairE | TileVariant::StairN | TileVariant::StairW,
            TileVariant::Door | TileVariant::Empty | TileVariant::StairE | TileVariant::StairN | TileVariant::StairS | TileVariant::StairW,
            TileVariant::StairW | TileVariant::Wall,
            TileVariant::Wall,
        )
        | (TileVariant::Door | TileVariant::Empty | TileVariant::StairE | TileVariant::StairN | TileVariant::StairW, TileVariant::Wall, TileVariant::StairW | TileVariant::Wall, TileVariant::Wall) => {
            TOP_EMPTY_SOUTHWALLHORIZONTAL
        }
        (TileVariant::Door | TileVariant::Empty | TileVariant::StairE | TileVariant::StairN | TileVariant::StairS | TileVariant::StairW, _, TileVariant::StairN | TileVariant::Wall, TileVariant::StairN) => {
            TOP_EMPTY_SOUTHSTAIRNFULL
        }
        (
            TileVariant::Empty | TileVariant::StairE | TileVariant::StairN | TileVariant::StairW,
            TileVariant::Door | TileVariant::Empty | TileVariant::StairE | TileVariant::StairN | TileVariant::StairS | TileVariant::StairW,
            TileVariant::StairN,
            TileVariant::Wall,
        )
        | (TileVariant::Door | TileVariant::Empty | TileVariant::StairE | TileVariant::StairN | TileVariant::StairW, TileVariant::Wall, TileVariant::StairN, TileVariant::Wall) => {
            TOP_EMPTY_SOUTHWALLCORNER_SOUTHEASTSTAIRN
        }
        (
            TileVariant::Wall,
            TileVariant::Empty | TileVariant::StairE | TileVariant::StairN | TileVariant::StairS,
            TileVariant::Door | TileVariant::Empty | TileVariant::StairE | TileVariant::StairS | TileVariant::StairW,
            TileVariant::StairN,
        ) => TOP_WALLVERTICAL_SOUTHSTAIRN,
        (TileVariant::StairE | TileVariant::Wall, TileVariant::Empty | TileVariant::StairE | TileVariant::StairN | TileVariant::StairS, _, TileVariant::StairE)
        | (TileVariant::StairE, TileVariant::Door | TileVariant::StairW | TileVariant::Wall, _, TileVariant::StairE) => TOP_EMPTY_SOUTHSTAIREFULL,
        (TileVariant::StairW | TileVariant::Wall, TileVariant::Empty | TileVariant::StairE | TileVariant::StairN | TileVariant::StairS | TileVariant::StairW | TileVariant::Wall, _, TileVariant::StairW)
        | (TileVariant::StairW, TileVariant::Door, _, TileVariant::StairW) => TOP_EMPTY_SOUTHSTAIRWFULL,
        (TileVariant::Wall, TileVariant::Empty | TileVariant::StairE | TileVariant::StairN | TileVariant::StairS, TileVariant::StairW | TileVariant::Wall, TileVariant::Wall) => {
            TOP_WALLVERTICAL_SOUTHWALLHORIZONTAL
        }
        (TileVariant::Wall, TileVariant::Empty | TileVariant::StairE | TileVariant::StairN | TileVariant::StairS, TileVariant::StairN | TileVariant::Wall, TileVariant::StairN) => {
            TOP_WALLVERTICAL_SOUTHSTAIRNFULL
        }
        (TileVariant::Wall, TileVariant::Empty | TileVariant::StairE | TileVariant::StairN | TileVariant::StairS, TileVariant::StairN, TileVariant::Wall) => {
            TOP_WALLVERTICAL_SOUTHWALLCORNER_SOUTHEASTSTAIRN
        }
        (TileVariant::Wall, TileVariant::StairW | TileVariant::Wall, TileVariant::Door | TileVariant::Empty | TileVariant::StairE | TileVariant::StairS | TileVariant::StairW, TileVariant::StairN) => {
            TOP_WALLINVERSECORNER_SOUTHSTAIRN
        }
        (TileVariant::Wall, TileVariant::StairW | TileVariant::Wall, _, TileVariant::StairE) => TOP_WALLHORIZONTAL_SOUTHSTAIREFULL,
        (TileVariant::Wall, TileVariant::StairW | TileVariant::Wall, TileVariant::StairN | TileVariant::Wall, TileVariant::StairN) => TOP_WALLFULL_SOUTHSTAIRNFULL,
        (TileVariant::Wall, TileVariant::StairW | TileVariant::Wall, TileVariant::StairN, TileVariant::Wall) => {
            TOP_WALLINVERSECORNER_SOUTHWALLCORNER_SOUTHEASTSTAIRN
        }
        (TileVariant::Wall, TileVariant::StairW | TileVariant::Wall, TileVariant::StairW, TileVariant::Wall) => TOP_WALLINVERSECORNER_SOUTHWALLHORIZONTAL,
        (TileVariant::Wall, TileVariant::Door, TileVariant::Door | TileVariant::Empty | TileVariant::StairE | TileVariant::StairS, TileVariant::Wall) => {
            TOP_WALLVERTICAL_SOUTHWALLCORNER_EASTDOOR
        }
        (TileVariant::Wall, TileVariant::Door, TileVariant::Door | TileVariant::Empty | TileVariant::StairE | TileVariant::StairS | TileVariant::StairW, TileVariant::StairN) => {
            TOP_WALLVERTICAL_SOUTHSTAIRN_EASTDOOR
        }
        (TileVariant::Wall, TileVariant::Door, _, TileVariant::StairE) => TOP_EMPTY_SOUTHSTAIREFULL_EASTDOOR,
        (TileVariant::Wall, TileVariant::Door, _, TileVariant::StairW) => TOP_EMPTY_SOUTHSTAIRWFULL_EASTDOOR,
        (TileVariant::Wall, TileVariant::Door, TileVariant::StairW | TileVariant::Wall, TileVariant::Wall) => TOP_WALLVERTICAL_SOUTHWALLHORIZONTAL_EASTDOOR,
        (TileVariant::Wall, TileVariant::Door, TileVariant::StairN | TileVariant::Wall, TileVariant::StairN) => TOP_WALLVERTICAL_SOUTHSTAIRNFULL_EASTDOOR,
        (TileVariant::Wall, TileVariant::Door, TileVariant::StairN, TileVariant::Wall) => TOP_WALLVERTICAL_SOUTHWALLCORNER_SOUTHEASTSTAIRN_EASTDOOR,
        (
            TileVariant::Door,
            TileVariant::Door | TileVariant::Empty | TileVariant::StairE | TileVariant::StairN | TileVariant::StairS | TileVariant::StairW,
            TileVariant::Door | TileVariant::Empty | TileVariant::StairE | TileVariant::StairS,
            TileVariant::Wall,
        ) => TOP_DOOR_SOUTHWALLCORNER,
        (TileVariant::Door, TileVariant::Door | TileVariant::Empty | TileVariant::StairE | TileVariant::StairN | TileVariant::StairS | TileVariant::StairW, TileVariant::StairW | TileVariant::Wall, TileVariant::Wall) => {
            TOP_DOOR_SOUTHWALLHORIZONTAL
        }
        (TileVariant::Door, TileVariant::Door | TileVariant::Empty | TileVariant::StairE | TileVariant::StairN | TileVariant::StairS | TileVariant::StairW, TileVariant::StairN, TileVariant::Wall) => {
            TOP_DOOR_SOUTHWALLCORNER_SOUTHEASTSTAIRN
        }
        (TileVariant::StairS, TileVariant::Door | TileVariant::Empty | TileVariant::StairE | TileVariant::StairN | TileVariant::StairW, TileVariant::Door | TileVariant::Empty | TileVariant::StairE | TileVariant::StairS, TileVariant::Wall) => {
            TOP_STAIRS_SOUTHWALLCORNER
        }
        (TileVariant::StairS, TileVariant::Door | TileVariant::Empty | TileVariant::StairE | TileVariant::StairN | TileVariant::StairW, TileVariant::StairW | TileVariant::Wall, TileVariant::Wall) => {
            TOP_STAIRS_SOUTHWALLHORIZONTAL
        }
        (TileVariant::StairS, TileVariant::Door | TileVariant::Empty | TileVariant::StairE | TileVariant::StairN | TileVariant::StairW, TileVariant::StairN, TileVariant::Wall) => {
            TOP_STAIRS_SOUTHWALLCORNER_SOUTHEASTSTAIRN
        }
        (TileVariant::StairS, TileVariant::StairS | TileVariant::Wall, TileVariant::Door | TileVariant::Empty | TileVariant::StairE | TileVariant::StairS, TileVariant::Wall) => {
            TOP_STAIRSFULL_SOUTHWALLCORNER
        }
        (TileVariant::StairS, TileVariant::StairS | TileVariant::Wall, TileVariant::Door | TileVariant::Empty | TileVariant::StairE | TileVariant::StairS | TileVariant::StairW, TileVariant::StairN) => {
            TOP_STAIRSFULL_SOUTHSTAIRN
        }
        (TileVariant::StairS, TileVariant::StairS | TileVariant::Wall, TileVariant::StairW | TileVariant::Wall, TileVariant::Wall) => TOP_STAIRSFULL_SOUTHWALLHORIZONTAL,
        (TileVariant::StairS, TileVariant::StairS | TileVariant::Wall, TileVariant::StairN, TileVariant::Wall) => TOP_STAIRSFULL_SOUTHWALLCORNER_SOUTHEASTSTAIRN,
    }
}

/// The variant of a tile of the given material; a tile outside any stored
/// chunk (`None`) is empty. Stairs take their direction from bits 10 and 11.
pub open spec fn variant_of(material: Option<TileMaterial>) -> TileVariant {
    match material {
        None => TileVariant::Empty,
        Some(m) => match kind_of(m.view_bits()) {
            TileKind::Empty => TileVariant::Empty,
            TileKind::Wall => TileVariant::Wall,
            TileKind::Door => TileVariant::Door,
            TileKind::Stairs => {
                let d = m.view_bits() & 0x0c00u16;
                if d == 0 {
                    TileVariant::StairN
                } else if d == 0x0800 {
                    TileVariant::StairS
                } else if d == 0x0400 {
                    TileVariant::StairE
                } else {
                    TileVariant::StairW
                }
            },
        },
    }
}

/// The variant of a tile, given the material stored for it, if any.
pub fn get_tile_variant(material: Option<TileMaterial>) -> (r: TileVariant)
    ensures
        r == variant_of(material),
{
    let material = match material {
        None => {
            return TileVariant::Empty;
        },
        Some(m) => m,
    };
    match material.kind() {
        TileKind::Empty => TileVariant::Empty,
        TileKind::Wall => TileVariant::Wall,
        TileKind::Door => TileVariant::Door,
        TileKind::Stairs => {
            let d = material.flags().intersection(
                TileMaterialFlags::from_bits_retain(TileMaterialFlags::STAIR_DIRECTION_MASK),
            ).bits();
            if d == TileMaterialFlags::STAIR_DIRECTION_NORTH {
                TileVariant::StairN
            } else if d == TileMaterialFlags::STAIR_DIRECTION_SOUTH {
                TileVariant::StairS
            } else if d == TileMaterialFlags::STAIR_DIRECTION_EAST {
                TileVariant::StairE
            } else {
                let ghost b = material.view_bits();
                assert(b & 0x0c00u16 == 0 || b & 0x0c00u16 == 0x0400 || b & 0x0c00u16 == 0x0800
                    || b & 0x0c00u16 == 0x0c00) by (bit_vector);
                TileVariant::StairW
            }
        },
    }
}

/// The base sprite offsets of the left and right halves of a tile, from the
/// variants of the tile and of its west, south-west, south, east and
/// south-east neighbours. The left half is resolved mirrored.
pub fn mid_offsets(
    tile: TileVariant,
    west: TileVariant,
    south_west: TileVariant,
    south: TileVariant,
    east: TileVariant,
    south_east: TileVariant,
) -> (r: (u16, u16))
    ensures
        r == (
            base_offset(tile.flipped(), west.flipped(), south_west.flipped(), south.flipped()),
            base_offset(tile, east, south_east, south),
        ),
{
    let left = resolve_base(tile.flip(), west.flip(), south_west.flip(), south.flip());
    let right = resolve_base(tile, east, south_east, south);
    (left, right)
}

/// The top sprite offsets of the left and right halves of a tile, from the
/// variants of the tile and of its west, south-west, south, east and
/// south-east neighbours. The left half is resolved mirrored.
pub fn top_offset(
    tile: TileVariant,
    west: TileVariant,
    south_west: TileVariant,
    south: TileVariant,
    east: TileVariant,
    south_east: TileVariant,
) -> (r: (u16, u16))
    ensures
        r == (
            top_offset_of(tile.flipped(), west.flipped(), south_west.flipped(), south.flipped()),
            top_offset_of(tile, east, south_east, south),
        ),
{
    let left = resolve_top(tile.flip(), west.flip(), south_west.flip(), south.flip());
    let right = resolve_top(tile, east, south_east, south);
    (left, right)
}

/// The base sprite of an empty or door tile half is empty. That of a stair
/// half is its stair, full exactly where the tile it leans against is a
/// wall or a stair running the same way: the tile east of a north or south
/// stair, the tile south of an east or west stair; no other neighbour
/// matters.
pub proof fn lemma_base_offset_of_stairs(east: TileVariant, south_east: TileVariant, south: TileVariant)
    ensures
        base_offset(TileVariant::Empty, east, south_east, south) == EMPTY,
        base_offset(TileVariant::Door, east, south_east, south) == EMPTY,
        base_offset(TileVariant::StairN, east, south_east, south) == (if east == TileVariant::Wall
            || east == TileVariant::StairN {
            BASE_STAIRNFULL
        } else {
            BASE_STAIRN
        }),
        base_offset(TileVariant::StairS, east, south_east, south) == (if east == TileVariant::Wall
            || east == TileVariant::StairS {
            BASE_STAIRSFULL
        } else {
            BASE_STAIRS
        }),
        base_offset(TileVariant::StairE, east, south_east, south) == (if south == TileVariant::Wall
            || south == TileVariant::StairE {
            BASE_STAIREFULL
        } else {
            BASE_STAIRE
        }),
        base_offset(TileVariant::StairW, east, south_east, south) == (if south == TileVariant::Wall
            || south == TileVariant::StairW {
            BASE_STAIRWFULL
        } else {
            BASE_STAIRW
        }),
{
}

/// The base sprite of a wall half sees the tile east of it only as solid (a
/// wall or a west stair), open (empty or an east stair), a door, a north
/// stair or a south stair; the tile south of it only as a wall, a door, a
/// north stair, or open (anything else); and the south-east tile only where
/// the tile south is not open.
pub proof fn lemma_base_offset_wall_neighbours(
    east: TileVariant,
    south_east: TileVariant,
    other_south_east: TileVariant,
    south: TileVariant,
)
    ensures
        base_offset(TileVariant::Wall, TileVariant::Empty, south_east, south) == base_offset(
            TileVariant::Wall,
            TileVariant::StairE,
            south_east,
            south,
        ),
        base_offset(TileVariant::Wall, TileVariant::Wall, south_east, south) == base_offset(
            TileVariant::Wall,
            TileVariant::StairW,
            south_east,
            south,
        ),
        south != TileVariant::Wall && south != TileVariant::Door && south != TileVariant::StairN
            ==> base_offset(TileVariant::Wall, east, south_east, south) == base_offset(
            TileVariant::Wall,
            east,
            south_east,
            TileVariant::Empty,
        ),
        south != TileVariant::Wall && south != TileVariant::Door && south != TileVariant::StairN
            ==> base_offset(TileVariant::Wall, east, south_east, south) == base_offset(
            TileVariant::Wall,
            east,
            other_south_east,
            south,
        ),
{
}

/// The base sprite of a wall half, for each kind of tile east of it, by
/// the tile south of it: a wall's shape (corner, vertical or horizontal
/// run, inverse corner, full), with the door or stair edge it meets east
/// and south. A door south is hidden under a wall south-east; a north stair
/// south is drawn full next to a wall or north stair south-east, where the
/// tile east is solid or a south stair.
pub proof fn lemma_base_offset_of_walls(south_east: TileVariant)
    ensures
        base_offset(TileVariant::Wall, TileVariant::Empty, south_east, TileVariant::Empty)
            == BASE_WALLCORNER,
        base_offset(TileVariant::Wall, TileVariant::Empty, south_east, TileVariant::Wall)
            == BASE_WALLVERTICAL,
        base_offset(TileVariant::Wall, TileVariant::Empty, south_east, TileVariant::Door) == (if south_east
            == TileVariant::Wall {
            BASE_WALLCORNER
        } else {
            BASE_WALLCORNER_SOUTHDOOR
        }),
        base_offset(TileVariant::Wall, TileVariant::Empty, south_east, TileVariant::StairN)
            == BASE_WALLVERTICAL_SOUTHSTAIRN,
        base_offset(TileVariant::Wall, TileVariant::Wall, south_east, TileVariant::Empty)
            == BASE_WALLHORIZONTAL,
        base_offset(TileVariant::Wall, TileVariant::Wall, south_east, TileVariant::Wall) == (if south_east
            == TileVariant::Wall {
            BASE_WALLFULL
        } else {
            BASE_WALLINVERSECORNER
        }),
        base_offset(TileVariant::Wall, TileVariant::Wall, south_east, TileVariant::Door) == (if south_east
            == TileVariant::Wall {
            BASE_WALLHORIZONTAL
        } else {
            BASE_WALLHORIZONTAL_SOUTHDOOR
        }),
        base_offset(TileVariant::Wall, TileVariant::Wall, south_east, TileVariant::StairN) == (if south_east
            == TileVariant::Wall || south_east == TileVariant::StairN {
            BASE_WALLFULL_SOUTHSTAIRNFULL
        } else {
            BASE_WALLINVERSECORNER_SOUTHSTAIRN
        }),
        base_offset(TileVariant::Wall, TileVariant::Door, south_east, TileVariant::Empty)
            == BASE_WALLCORNER_EASTDOOR,
        base_offset(TileVariant::Wall, TileVariant::Door, south_east, TileVariant::Wall)
            == BASE_WALLVERTICAL_EASTDOOR,
        base_offset(TileVariant::Wall, TileVariant::Door, south_east, TileVariant::Door) == (if south_east
            == TileVariant::Wall {
            BASE_WALLCORNER_EASTDOOR
        } else {
            BASE_WALLCORNER_EASTDOOR_SOUTHDOOR
        }),
        base_offset(TileVariant::Wall, TileVariant::Door, south_east, TileVariant::StairN)
            == BASE_WALLVERTICAL_EASTDOOR_SOUTHSTAIRN,
        base_offset(TileVariant::Wall, TileVariant::StairN, south_east, TileVariant::Empty)
            == BASE_WALLCORNER_EASTSTAIRN,
        base_offset(TileVariant::Wall, TileVariant::StairN, south_east, TileVariant::Wall)
            == BASE_WALLVERTICAL_EASTSTAIRN,
        base_offset(TileVariant::Wall, TileVariant::StairN, south_east, TileVariant::Door) == (if south_east
            == TileVariant::Wall {
            BASE_WALLCORNER_EASTSTAIRN
        } else {
            BASE_WALLCORNER_EASTSTAIRN_SOUTHDOOR
        }),
        base_offset(TileVariant::Wall, TileVariant::StairN, south_east, TileVariant::StairN)
            == BASE_WALLVERTICAL_EASTSTAIRN_SOUTHSTAIRN,
        base_offset(TileVariant::Wall, TileVariant::StairS, south_east, TileVariant::Empty)
            == BASE_WALLCORNER_EASTSTAIRS,
        base_offset(TileVariant::Wall, TileVariant::StairS, south_east, TileVariant::Wall)
            == BASE_WALLVERTICAL_EASTSTAIRS,
        base_offset(TileVariant::Wall, TileVariant::StairS, south_east, TileVariant::Door) == (if south_east
            == TileVariant::Wall {
            BASE_WALLCORNER_EASTSTAIRS
        } else {
            BASE_WALLCORNER_EASTSTAIRS_SOUTHDOOR
        }),
        base_offset(TileVariant::Wall, TileVariant::StairS, south_east, TileVariant::StairN) == (if south_east
            == TileVariant::Wall || south_east == TileVariant::StairN {
            BASE_WALLVERTICAL_EASTSTAIRS_SOUTHSTAIRNFULL
        } else {
            BASE_WALLVERTICAL_EASTSTAIRS_SOUTHSTAIRN
        }),
{
}

} // verus!
