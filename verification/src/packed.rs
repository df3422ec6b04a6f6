//! The data of a tile as the chunk shader reads it: a sprite index with a
//! mirroring flag in its top bit, and a depth.
use crate::material::TileKind;
use vstd::prelude::*;

verus! {

/// A sprite index, its top bit telling whether the sprite is mirrored left
/// to right, and a depth.
#[derive(Clone, Copy, Debug, PartialEq, Eq, Structural)]
pub struct PackedTileData {
    index: u16,
    depth: u16,
}

/// The top bit of the packed index: the sprite is mirrored left to right.
pub const FLIP_X: u16 = 0x8000;

impl PackedTileData {
    /// The packed index, flag included.
    pub closed spec fn packed_index(self) -> u16 {
        self.index
    }

    /// The depth.
    pub closed spec fn spec_depth(self) -> u16 {
        self.depth
    }

    /// Packs `index`, with its top bit set where `flip_x` holds, and
    /// `depth`.
    pub fn new(index: u16, depth: u16, flip_x: bool) -> (r: Self)
        ensures
            r.packed_index() == if flip_x {
                index | FLIP_X
            } else {
                index
            },
            r.spec_depth() == depth,
    {
        let index = if flip_x {
            index | FLIP_X
        } else {
            index
        };
        PackedTileData { index, depth }
    }

    /// The sprite index, without the mirroring flag.
    pub fn index(&self) -> (r: u16)
        ensures
            r == self.packed_index() & !FLIP_X,
    {
        self.index & !FLIP_X
    }

    /// The depth.
    pub fn depth(&self) -> (r: u16)
        ensures
            r == self.spec_depth(),
    {
        self.depth
    }

    /// Whether the sprite is mirrored left to right.
    pub fn flip_x(&self) -> (r: bool)
        ensures
            r == (self.packed_index() & FLIP_X != 0),
    {
        (self.index & FLIP_X) != 0
    }
}

/// The base layer of a tile of the given kind, for its left and right
/// halves alike: sprite 1 under an empty tile or a stair, sprite 2 under a
/// wall or a door, not mirrored, at depth 0.
pub fn pack_base_tile(kind: TileKind) -> (r: [PackedTileData; 2])
    ensures
        ({
            let offset: u16 = match kind {
                TileKind::Empty | TileKind::Stairs => 1,
                _ => 2,
            };
            &&& r@[0].packed_index() == offset && r@[0].spec_depth() == 0
            &&& r@[1].packed_index() == offset && r@[1].spec_depth() == 0
        }),
{
    let offset: u16 = match kind {
        TileKind::Empty | TileKind::Stairs => 1,
        _ => 2,
    };
    [PackedTileData::new(offset, 0, false), PackedTileData::new(offset, 0, false)]
}

/// Packing and reading back give the index without its top bit, the depth
/// and the flag that went in.
pub proof fn lemma_packed_round_trip(index: u16, depth: u16, flip_x: bool, p: PackedTileData)
    requires
        p.packed_index() == if flip_x {
            index | FLIP_X
        } else {
            index
        },
        p.spec_depth() == depth,
    ensures
        p.packed_index() & !FLIP_X == index & !FLIP_X,
        (p.packed_index() & FLIP_X != 0) == (flip_x || index & FLIP_X != 0),
        p.spec_depth() == depth,
{
    let packed = p.packed_index();
    if flip_x {
        assert(packed == index | 0x8000u16 ==> packed & !0x8000u16 == index & !0x8000u16 && packed
            & 0x8000u16 != 0) by (bit_vector);
    }
}

} // verus!
