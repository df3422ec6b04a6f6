//! Tile materials, packed into 16 bits: a 10-bit id, direction bits, a move
//! speed and a kind.
use vstd::prelude::*;

verus! {

/// A set of material bits.
#[derive(Debug, Clone, Copy, PartialEq, Eq, Hash, Structural)]
pub struct TileMaterialFlags {
    bits: u16,
}

impl TileMaterialFlags {
    pub const ID_MASK: u16 = 0x03ff;
    pub const GROUND_INSIDE_MASK: u16 = 0x0400;
    pub const GROUND_INSIDE: u16 = 0x0400;
    pub const GROUND_OUTSIDE: u16 = 0x0000;
    pub const STAIR_DIRECTION_MASK: u16 = 0x0c00;
    pub const STAIR_DIRECTION_NORTH: u16 = 0x0000;
    pub const STAIR_DIRECTION_EAST: u16 = 0x0400;
    pub const STAIR_DIRECTION_SOUTH: u16 = 0x0800;
    pub const STAIR_DIRECTION_WEST: u16 = 0x0c00;
    pub const DOOR_DIRECTION_MASK: u16 = 0x0800;
    pub const DOOR_DIRECTION_HORIZONTAL: u16 = 0x0000;
    pub const DOOR_DIRECTION_VERTICAL: u16 = 0x0800;
    pub const MOVE_SPEED_MASK: u16 = 0x3000;
    pub const MOVE_SPEED_MEDIUM: u16 = 0x0000;
    pub const MOVE_SPEED_FAST: u16 = 0x1000;
    pub const MOVE_SPEED_SLOW: u16 = 0x2000;
    pub const KIND_MASK: u16 = 0xc000;
    pub const KIND_EMPTY: u16 = 0x0000;
    pub const KIND_WALL: u16 = 0x4000;
    pub const KIND_DOOR: u16 = 0x8000;
    pub const KIND_STAIRS: u16 = 0xc000;

    /// The bits of the set.
    pub closed spec fn view_bits(self) -> u16 {
        self.bits
    }

    pub fn from_bits_retain(bits: u16) -> (r: Self)
        ensures
            r.view_bits() == bits,
    {
        TileMaterialFlags { bits }
    }

    pub fn bits(&self) -> (r: u16)
        ensures
            r == self.view_bits(),
    {
        self.bits
    }

    pub fn intersection(self, other: Self) -> (r: Self)
        ensures
            r.view_bits() == self.view_bits() & other.view_bits(),
    {
        TileMaterialFlags { bits: self.bits & other.bits }
    }

    pub fn union(self, other: Self) -> (r: Self)
        ensures
            r.view_bits() == self.view_bits() | other.view_bits(),
    {
        TileMaterialFlags { bits: self.bits | other.bits }
    }

    pub fn difference(self, other: Self) -> (r: Self)
        ensures
            r.view_bits() == self.view_bits() & !other.view_bits(),
    {
        TileMaterialFlags { bits: self.bits & !other.bits }
    }

    pub fn contains(&self, other: Self) -> (r: bool)
        ensures
            r == (self.view_bits() & other.view_bits() == other.view_bits()),
    {
        self.bits & other.bits == other.bits
    }
}

/// The kind of a tile.
#[derive(Debug, Clone, Copy, PartialEq, Eq, Hash, Structural)]
pub enum TileKind {
    Empty,
    Wall,
    Door,
    Stairs,
}

/// How fast objects move over a tile.
#[derive(Debug, Clone, Copy, PartialEq, Eq, Hash, Structural)]
pub enum TileMoveSpeed {
    Medium,
    Slow,
    Fast,
}

/// The kind encoded in the top two bits of a material.
pub open spec fn kind_of(bits: u16) -> TileKind {
    let k = bits & 0xc000u16;
    if k == 0 {
        TileKind::Empty
    } else if k == 0x4000 {
        TileKind::Wall
    } else if k == 0x8000 {
        TileKind::Door
    } else {
        TileKind::Stairs
    }
}

/// The move speed encoded in bits 12 and 13 of a material; the unused code
/// reads as medium.
pub open spec fn move_speed_of(bits: u16) -> TileMoveSpeed {
    let m = bits & 0x3000u16;
    if m == 0x2000 {
        TileMoveSpeed::Slow
    } else if m == 0x1000 {
        TileMoveSpeed::Fast
    } else {
        TileMoveSpeed::Medium
    }
}

impl TileKind {
    /// The kind bits of this kind.
    pub open spec fn kind_bits(self) -> u16 {
        match self {
            TileKind::Empty => 0x0000,
            TileKind::Wall => 0x4000,
            TileKind::Door => 0x8000,
            TileKind::Stairs => 0xc000,
        }
    }

    /// All kinds, in declaration order.
    pub fn values() -> (r: [TileKind; 4])
        ensures
            r@ == seq![TileKind::Empty, TileKind::Wall, TileKind::Door, TileKind::Stairs],
    {
        [TileKind::Empty, TileKind::Wall, TileKind::Door, TileKind::Stairs]
    }

    pub fn is_empty(&self) -> (r: bool)
        ensures
            r == (*self == TileKind::Empty),
    {
        matches!(self, TileKind::Empty)
    }

    fn flags(&self) -> (r: TileMaterialFlags)
        ensures
            r.view_bits() == self.kind_bits(),
    {
        match self {
            TileKind::Empty => TileMaterialFlags::from_bits_retain(TileMaterialFlags::KIND_EMPTY),
            TileKind::Wall => TileMaterialFlags::from_bits_retain(TileMaterialFlags::KIND_WALL),
            TileKind::Door => TileMaterialFlags::from_bits_retain(TileMaterialFlags::KIND_DOOR),
            TileKind::Stairs => TileMaterialFlags::from_bits_retain(
                TileMaterialFlags::KIND_STAIRS,
            ),
        }
    }
}

impl TileMoveSpeed {
    /// The move speed bits of this speed.
    pub open spec fn speed_bits(self) -> u16 {
        match self {
            TileMoveSpeed::Medium => 0x0000,
            TileMoveSpeed::Slow => 0x2000,
            TileMoveSpeed::Fast => 0x1000,
        }
    }

    fn flags(&self) -> (r: TileMaterialFlags)
        ensures
            r.view_bits() == self.speed_bits(),
    {
        match self {
            TileMoveSpeed::Medium => TileMaterialFlags::from_bits_retain(
                TileMaterialFlags::MOVE_SPEED_MEDIUM,
            ),
            TileMoveSpeed::Slow => TileMaterialFlags::from_bits_retain(
                TileMaterialFlags::MOVE_SPEED_SLOW,
            ),
            TileMoveSpeed::Fast => TileMaterialFlags::from_bits_retain(
                TileMaterialFlags::MOVE_SPEED_FAST,
            ),
        }
    }
}

/// The material of a tile.
#[derive(Clone, Copy, PartialEq, Eq, Hash, Debug, Structural)]
pub struct TileMaterial(TileMaterialFlags);

impl TileMaterial {
    /// The bits of the material.
    pub closed spec fn view_bits(self) -> u16 {
        self.0.view_bits()
    }

    /// The empty material with id 0 and medium speed.
    #[allow(non_snake_case)]
    pub fn EMPTY() -> (r: Self)
        ensures
            r.view_bits() == 0,
    {
        TileMaterial(TileMaterialFlags::from_bits_retain(TileMaterialFlags::KIND_EMPTY))
    }

    /// The wall material with id 0.
    #[allow(non_snake_case)]
    pub fn WALL() -> (r: Self)
        ensures
            r.view_bits() == 0x4000,
    {
        TileMaterial(TileMaterialFlags::from_bits_retain(TileMaterialFlags::KIND_WALL))
    }

    /// The door material with id 0.
    #[allow(non_snake_case)]
    pub fn DOOR() -> (r: Self)
        ensures
            r.view_bits() == 0x8000,
    {
        TileMaterial(TileMaterialFlags::from_bits_retain(TileMaterialFlags::KIND_DOOR))
    }

    /// The stairs material with id 0, leading north.
    #[allow(non_snake_case)]
    pub fn STAIR() -> (r: Self)
        ensures
            r.view_bits() == 0xc000,
    {
        TileMaterial(TileMaterialFlags::from_bits_retain(TileMaterialFlags::KIND_STAIRS))
    }

    /// The slow empty material with id 0.
    #[allow(non_snake_case)]
    pub fn SLOW() -> (r: Self)
        ensures
            r.view_bits() == 0x2000,
    {
        assert(0u16 | 0x2000u16 == 0x2000u16) by (bit_vector);
        TileMaterial(
            TileMaterialFlags::from_bits_retain(TileMaterialFlags::KIND_EMPTY).union(
                TileMaterialFlags::from_bits_retain(TileMaterialFlags::MOVE_SPEED_SLOW),
            ),
        )
    }

    /// The fast empty material with id 0.
    #[allow(non_snake_case)]
    pub fn FAST() -> (r: Self)
        ensures
            r.view_bits() == 0x1000,
    {
        assert(0u16 | 0x1000u16 == 0x1000u16) by (bit_vector);
        TileMaterial(
            TileMaterialFlags::from_bits_retain(TileMaterialFlags::KIND_EMPTY).union(
                TileMaterialFlags::from_bits_retain(TileMaterialFlags::MOVE_SPEED_FAST),
            ),
        )
    }

    /// The bits of `bits` with the id replaced.
    pub open spec fn bits_with_id(bits: u16, id: u16) -> u16 {
        (bits & !0x03ffu16) | id
    }

    /// The bits of `bits` with the move speed replaced.
    pub open spec fn bits_with_speed(bits: u16, speed: TileMoveSpeed) -> u16 {
        (bits & !0x3000u16) | speed.speed_bits()
    }

    pub fn new(kind: TileKind, id: u16, move_speed: TileMoveSpeed) -> (r: Self)
        requires
            id <= 0x03ff,
        ensures
            r.view_bits() == TileMaterial::bits_with_speed(
                TileMaterial::bits_with_id(kind.kind_bits(), id),
                move_speed,
            ),
    {
        TileMaterial(kind.flags()).with_id(id).with_move_speed(move_speed)
    }

    pub fn empty(id: u16, move_speed: TileMoveSpeed) -> (r: Self)
        requires
            id <= 0x03ff,
        ensures
            r.view_bits() == TileMaterial::bits_with_speed(
                TileMaterial::bits_with_id(0, id),
                move_speed,
            ),
    {
        TileMaterial::EMPTY().with_id(id).with_move_speed(move_speed)
    }

    pub fn wall(id: u16) -> (r: Self)
        requires
            id <= 0x03ff,
        ensures
            r.view_bits() == TileMaterial::bits_with_id(0x4000, id),
    {
        TileMaterial::WALL().with_id(id)
    }

    pub fn door(id: u16, move_speed: TileMoveSpeed) -> (r: Self)
        requires
            id <= 0x03ff,
        ensures
            r.view_bits() == TileMaterial::bits_with_speed(
                TileMaterial::bits_with_id(0x8000, id),
                move_speed,
            ),
    {
        TileMaterial::DOOR().with_id(id).with_move_speed(move_speed)
    }

    pub fn stairs(id: u16, move_speed: TileMoveSpeed) -> (r: Self)
        requires
            id <= 0x03ff,
        ensures
            r.view_bits() == TileMaterial::bits_with_speed(
                TileMaterial::bits_with_id(0xc000, id),
                move_speed,
            ),
    {
        TileMaterial::STAIR().with_id(id).with_move_speed(move_speed)
    }

    pub fn kind(&self) -> (r: TileKind)
        ensures
            r == kind_of(self.view_bits()),
    {
        let k = self.0.intersection(TileMaterialFlags::from_bits_retain(TileMaterialFlags::KIND_MASK)).bits();
        if k == TileMaterialFlags::KIND_EMPTY {
            TileKind::Empty
        } else if k == TileMaterialFlags::KIND_WALL {
            TileKind::Wall
        } else if k == TileMaterialFlags::KIND_DOOR {
            TileKind::Door
        } else {
            let ghost b = self.view_bits();
            assert(b & 0xc000u16 == 0 || b & 0xc000u16 == 0x4000 || b & 0xc000u16 == 0x8000
                || b & 0xc000u16 == 0xc000) by (bit_vector);
            TileKind::Stairs
        }
    }

    pub fn id(self) -> (r: u16)
        ensures
            r == self.view_bits() & 0x03ff,
    {
        self.0.intersection(TileMaterialFlags::from_bits_retain(TileMaterialFlags::ID_MASK)).bits()
    }

    pub fn set_id(&mut self, id: u16)
        requires
            id <= 0x03ff,
        ensures
            final(self).view_bits() == TileMaterial::bits_with_id(old(self).view_bits(), id),
    {
        *self = self.with_id(id);
    }

    pub fn with_id(self, id: u16) -> (r: Self)
        requires
            id <= 0x03ff,
        ensures
            r.view_bits() == TileMaterial::bits_with_id(self.view_bits(), id),
    {
        let id = TileMaterialFlags::from_bits_retain(id);
        TileMaterial(
            self.0.difference(TileMaterialFlags::from_bits_retain(TileMaterialFlags::ID_MASK)).union(
                id,
            ),
        )
    }

    pub fn flags(&self) -> (r: TileMaterialFlags)
        ensures
            r.view_bits() == self.view_bits(),
    {
        self.0
    }

    pub fn set_flags(&mut self, mask: TileMaterialFlags, flags: TileMaterialFlags)
        ensures
            final(self).view_bits() == (old(self).view_bits() & !mask.view_bits())
                | flags.view_bits(),
    {
        *self = self.with_flags(mask, flags);
    }

    pub fn with_flags(self, mask: TileMaterialFlags, flags: TileMaterialFlags) -> (r: Self)
        ensures
            r.view_bits() == (self.view_bits() & !mask.view_bits()) | flags.view_bits(),
    {
        TileMaterial(self.0.difference(mask).union(flags))
    }

    pub fn move_speed(&self) -> (r: TileMoveSpeed)
        ensures
            r == move_speed_of(self.view_bits()),
    {
        let m = self.0.intersection(
            TileMaterialFlags::from_bits_retain(TileMaterialFlags::MOVE_SPEED_MASK),
        ).bits();
        if m == TileMaterialFlags::MOVE_SPEED_SLOW {
            TileMoveSpeed::Slow
        } else if m == TileMaterialFlags::MOVE_SPEED_FAST {
            TileMoveSpeed::Fast
        } else {
            TileMoveSpeed::Medium
        }
    }

    pub fn with_move_speed(self, move_speed: TileMoveSpeed) -> (r: Self)
        ensures
            r.view_bits() == TileMaterial::bits_with_speed(self.view_bits(), move_speed),
    {
        TileMaterial(
            self.0.difference(
                TileMaterialFlags::from_bits_retain(TileMaterialFlags::MOVE_SPEED_MASK),
            ).union(move_speed.flags()),
        )
    }
}

impl Default for TileMaterial {
    fn default() -> (r: Self)
        ensures
            r.view_bits() == 0,
    {
        TileMaterial::EMPTY()
    }
}

/// Setting the id of a material gives that id back and keeps its kind and
/// move speed.
pub proof fn lemma_with_id(bits: u16, id: u16)
    requires
        id <= 0x03ff,
    ensures
        TileMaterial::bits_with_id(bits, id) & 0x03ff == id,
        kind_of(TileMaterial::bits_with_id(bits, id)) == kind_of(bits),
        move_speed_of(TileMaterial::bits_with_id(bits, id)) == move_speed_of(bits),
{
    assert(((bits & !0x03ffu16) | id) & 0x03ff == id && ((bits & !0x03ffu16) | id) & 0xc000
        == bits & 0xc000 && ((bits & !0x03ffu16) | id) & 0x3000 == bits & 0x3000) by (bit_vector)
        requires
            id <= 0x03ff,
    ;
}

/// Setting the move speed of a material gives that speed back and keeps its
/// kind and id.
pub proof fn lemma_with_move_speed(bits: u16, speed: TileMoveSpeed)
    ensures
        move_speed_of(TileMaterial::bits_with_speed(bits, speed)) == speed,
        kind_of(TileMaterial::bits_with_speed(bits, speed)) == kind_of(bits),
        TileMaterial::bits_with_speed(bits, speed) & 0x03ff == bits & 0x03ff,
{
    let s = speed.speed_bits();
    assert(s == 0 || s == 0x1000 || s == 0x2000);
    assert(((bits & !0x3000u16) | s) & 0x3000 == s && ((bits & !0x3000u16) | s) & 0xc000 == bits
        & 0xc000 && ((bits & !0x3000u16) | s) & 0x03ff == bits & 0x03ff) by (bit_vector)
        requires
            s == 0 || s == 0x1000 || s == 0x2000,
    ;
}

/// A material built from a kind, an id and a move speed gives each of them
/// back.
pub proof fn lemma_new(kind: TileKind, id: u16, speed: TileMoveSpeed)
    requires
        id <= 0x03ff,
    ensures
        ({
            let bits = TileMaterial::bits_with_speed(
                TileMaterial::bits_with_id(kind.kind_bits(), id),
                speed,
            );
            kind_of(bits) == kind && bits & 0x03ff == id && move_speed_of(bits) == speed
        }),
{
    let k = kind.kind_bits();
    lemma_with_id(k, id);
    lemma_with_move_speed(TileMaterial::bits_with_id(k, id), speed);
    assert(kind_of(k) == kind) by {
        assert(0x0000u16 & 0xc000u16 == 0 && 0x4000u16 & 0xc000u16 == 0x4000 && 0x8000u16
            & 0xc000u16 == 0x8000 && 0xc000u16 & 0xc000u16 == 0xc000) by (bit_vector);
    }
}

} // verus!
