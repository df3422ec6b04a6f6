//! Which of the eight neighbours of a tile are walls, doors or stairs.
use crate::material::TileKind;
use vstd::prelude::*;

verus! {

/// A set of the eight directions around a tile, one bit each.
#[derive(Debug, Clone, Copy, PartialEq, Eq, Hash, Structural)]
pub struct Adjacency {
    bits: u8,
}

/// The bits of `x` in reverse order.
pub open spec fn reversed_bits(x: u8) -> u8 {
    ((x & 0x01) << 7u8) | ((x & 0x02) << 5u8) | ((x & 0x04) << 3u8) | ((x & 0x08) << 1u8) | ((x
        & 0x10) >> 1u8) | ((x & 0x20) >> 3u8) | ((x & 0x40) >> 5u8) | ((x & 0x80) >> 7u8)
}

/// The bits of `x` shifted right by `n`, the bits shifted out entering at the
/// top.
pub open spec fn rotated_right(x: u8, n: u8) -> u8 {
    if n == 0 {
        x
    } else {
        (x >> n) | (x << ((8 - n) as u8))
    }
}

/// The bits of `x` in reverse order.
fn reverse_bits(x: u8) -> (r: u8)
    ensures
        r == reversed_bits(x),
{
    ((x & 0x01) << 7u8) | ((x & 0x02) << 5u8) | ((x & 0x04) << 3u8) | ((x & 0x08) << 1u8) | ((x
        & 0x10) >> 1u8) | ((x & 0x20) >> 3u8) | ((x & 0x40) >> 5u8) | ((x & 0x80) >> 7u8)
}

/// The bits of `x` shifted right by `n`, the bits shifted out entering at
/// the top.
fn rotate_right(x: u8, n: u32) -> (r: u8)
    requires
        n < 8,
    ensures
        r == rotated_right(x, n as u8),
{
    let k = n as u8;
    if k == 0 {
        x
    } else {
        (x >> k) | (x << (8 - k))
    }
}

/// The bits of a set mirrored left to right.
pub open spec fn flipped_x_bits(b: u8) -> u8 {
    rotated_right(reversed_bits(b), 5)
}

/// The bits of a set mirrored top to bottom.
pub open spec fn flipped_y_bits(b: u8) -> u8 {
    rotated_right(reversed_bits(b), 1)
}

impl Adjacency {
    /// The bits of the set.
    pub closed spec fn view_bits(self) -> u8 {
        self.bits
    }

    #[allow(non_snake_case)]
    pub fn NONE() -> (r: Self)
        ensures
            r.view_bits() == 0,
    {
        Adjacency { bits: 0b0000_0000 }
    }

    #[allow(non_snake_case)]
    pub fn NORTH_WEST() -> (r: Self)
        ensures
            r.view_bits() == 0x01,
    {
        Adjacency { bits: 0b0000_0001 }
    }

    #[allow(non_snake_case)]
    pub fn NORTH() -> (r: Self)
        ensures
            r.view_bits() == 0x02,
    {
        Adjacency { bits: 0b0000_0010 }
    }

    #[allow(non_snake_case)]
    pub fn NORTH_EAST() -> (r: Self)
        ensures
            r.view_bits() == 0x04,
    {
        Adjacency { bits: 0b0000_0100 }
    }

    #[allow(non_snake_case)]
    pub fn EAST() -> (r: Self)
        ensures
            r.view_bits() == 0x08,
    {
        Adjacency { bits: 0b0000_1000 }
    }

    #[allow(non_snake_case)]
    pub fn SOUTH_EAST() -> (r: Self)
        ensures
            r.view_bits() == 0x10,
    {
        Adjacency { bits: 0b0001_0000 }
    }

    #[allow(non_snake_case)]
    pub fn SOUTH() -> (r: Self)
        ensures
            r.view_bits() == 0x20,
    {
        Adjacency { bits: 0b0010_0000 }
    }

    #[allow(non_snake_case)]
    pub fn SOUTH_WEST() -> (r: Self)
        ensures
            r.view_bits() == 0x40,
    {
        Adjacency { bits: 0b0100_0000 }
    }

    #[allow(non_snake_case)]
    pub fn WEST() -> (r: Self)
        ensures
            r.view_bits() == 0x80,
    {
        Adjacency { bits: 0b1000_0000 }
    }

    pub fn from_bits_retain(bits: u8) -> (r: Self)
        ensures
            r.view_bits() == bits,
    {
        Adjacency { bits }
    }

    pub fn bits(&self) -> (r: u8)
        ensures
            r == self.view_bits(),
    {
        self.bits
    }

    pub fn contains(&self, other: Self) -> (r: bool)
        ensures
            r == (self.view_bits() & other.view_bits() == other.view_bits()),
    {
        self.bits & other.bits == other.bits
    }

    pub fn insert(&mut self, other: Self)
        ensures
            final(self).view_bits() == old(self).view_bits() | other.view_bits(),
    {
        self.bits = self.bits | other.bits;
    }

    pub fn remove(&mut self, other: Self)
        ensures
            final(self).view_bits() == old(self).view_bits() & !other.view_bits(),
    {
        self.bits = self.bits & !other.bits;
    }

    pub fn union(self, other: Self) -> (r: Self)
        ensures
            r.view_bits() == self.view_bits() | other.view_bits(),
    {
        Adjacency { bits: self.bits | other.bits }
    }

    pub fn intersection(self, other: Self) -> (r: Self)
        ensures
            r.view_bits() == self.view_bits() & other.view_bits(),
    {
        Adjacency { bits: self.bits & other.bits }
    }

    pub fn symmetric_difference(self, other: Self) -> (r: Self)
        ensures
            r.view_bits() == self.view_bits() ^ other.view_bits(),
    {
        Adjacency { bits: self.bits ^ other.bits }
    }

    pub fn complement(self) -> (r: Self)
        ensures
            r.view_bits() == !self.view_bits(),
    {
        Adjacency { bits: !self.bits }
    }

    /// The set mirrored top to bottom: north and south swap.
    pub fn flip_y(&self) -> (r: Self)
        ensures
            r.view_bits() == flipped_y_bits(self.view_bits()),
    {
        Adjacency::from_bits_retain(rotate_right(reverse_bits(self.bits()), 1))
    }

    /// The set mirrored left to right: east and west swap.
    pub fn flip_x(&self) -> (r: Self)
        ensures
            r.view_bits() == flipped_x_bits(self.view_bits()),
    {
        Adjacency::from_bits_retain(rotate_right(reverse_bits(self.bits()), 5))
    }

    /// Every set of directions, by increasing bits.
    pub fn values() -> (r: Vec<Adjacency>)
        ensures
            r@.len() == 256,
            forall|i: int| 0 <= i < 256 ==> #[trigger] r@[i].view_bits() == i,
    {
        let mut r: Vec<Adjacency> = Vec::new();
        let mut i: u16 = 0;
        while i <= 255
            invariant
                i <= 256,
                r@.len() == i,
                forall|j: int| 0 <= j < i ==> #[trigger] r@[j].view_bits() == j,
            decreases 256 - i,
        {
            r.push(Adjacency::from_bits_retain(i as u8));
            i = i + 1;
        }
        r
    }
}

/// Mirroring left to right twice gives the set back.
pub proof fn lemma_flip_x_involution(b: u8)
    ensures
        flipped_x_bits(flipped_x_bits(b)) == b,
{
    assert(rotated_right(reversed_bits(rotated_right(reversed_bits(b), 5)), 5) == b)
        by (bit_vector);
}

/// Mirroring top to bottom twice gives the set back.
pub proof fn lemma_flip_y_involution(b: u8)
    ensures
        flipped_y_bits(flipped_y_bits(b)) == b,
{
    assert(rotated_right(reversed_bits(rotated_right(reversed_bits(b), 1)), 1) == b)
        by (bit_vector);
}

/// Mirroring left to right swaps east and west, north-east and north-west,
/// south-east and south-west, and keeps north and south.
pub proof fn lemma_flip_x_directions()
    ensures
        flipped_x_bits(0x02) == 0x02,
        flipped_x_bits(0x20) == 0x20,
        flipped_x_bits(0x08) == 0x80,
        flipped_x_bits(0x80) == 0x08,
        flipped_x_bits(0x04) == 0x01,
        flipped_x_bits(0x01) == 0x04,
        flipped_x_bits(0x10) == 0x40,
        flipped_x_bits(0x40) == 0x10,
{
    assert(
        (rotated_right(reversed_bits(0x02), 5) == 0x02) &&
        (rotated_right(reversed_bits(0x20), 5) == 0x20) &&
        (rotated_right(reversed_bits(0x08), 5) == 0x80) &&
        (rotated_right(reversed_bits(0x80), 5) == 0x08) &&
        (rotated_right(reversed_bits(0x04), 5) == 0x01) &&
        (rotated_right(reversed_bits(0x01), 5) == 0x04) &&
        (rotated_right(reversed_bits(0x10), 5) == 0x40) &&
        (rotated_right(reversed_bits(0x40), 5) == 0x10)
    ) by (bit_vector);
}

/// Mirroring top to bottom swaps north and south, north-east and south-east,
/// north-west and south-west, and keeps east and west.
pub proof fn lemma_flip_y_directions()
    ensures
        flipped_y_bits(0x08) == 0x08,
        flipped_y_bits(0x80) == 0x80,
        flipped_y_bits(0x02) == 0x20,
        flipped_y_bits(0x20) == 0x02,
        flipped_y_bits(0x04) == 0x10,
        flipped_y_bits(0x10) == 0x04,
        flipped_y_bits(0x01) == 0x40,
        flipped_y_bits(0x40) == 0x01,
{
    assert(
        (rotated_right(reversed_bits(0x08), 1) == 0x08) &&
        (rotated_right(reversed_bits(0x80), 1) == 0x80) &&
        (rotated_right(reversed_bits(0x02), 1) == 0x20) &&
        (rotated_right(reversed_bits(0x20), 1) == 0x02) &&
        (rotated_right(reversed_bits(0x04), 1) == 0x10) &&
        (rotated_right(reversed_bits(0x10), 1) == 0x04) &&
        (rotated_right(reversed_bits(0x01), 1) == 0x40) &&
        (rotated_right(reversed_bits(0x40), 1) == 0x01)
    ) by (bit_vector);
}

/// For each neighbour of a tile, the kind of that neighbour, as two sets:
/// a wall is in the first set only, a door in the second only, stairs in
/// both, and an empty tile in neither.
#[derive(Clone, Copy, PartialEq, Eq, Debug, Structural)]
pub struct TileAdjacency(Adjacency, Adjacency);

/// The walls among the neighbours encoded by the pair of sets `(a, b)`.
pub open spec fn walls_of(a: u8, b: u8) -> u8 {
    a & !b
}

pub open spec fn doors_of(a: u8, b: u8) -> u8 {
    b & !a
}

pub open spec fn stairs_of(a: u8, b: u8) -> u8 {
    a & b
}

pub open spec fn empties_of(a: u8, b: u8) -> u8 {
    !(a | b)
}

/// The neighbours that block movement: walls and doors.
pub open spec fn solids_of(a: u8, b: u8) -> u8 {
    a ^ b
}

/// The neighbours of the given kind.
pub open spec fn kind_set(a: u8, b: u8, kind: TileKind) -> u8 {
    match kind {
        TileKind::Empty => empties_of(a, b),
        TileKind::Wall => walls_of(a, b),
        TileKind::Door => doors_of(a, b),
        TileKind::Stairs => stairs_of(a, b),
    }
}

/// The pair of sets after the neighbours in `m` change from kind `prev` to
/// kind `cur`.
pub open spec fn updated_pair(a: u8, b: u8, m: u8, prev: TileKind, cur: TileKind) -> (u8, u8) {
    match (prev, cur) {
        (TileKind::Empty, TileKind::Wall) | (TileKind::Door, TileKind::Stairs) => (a | m, b),
        (TileKind::Empty, TileKind::Door) | (TileKind::Wall, TileKind::Stairs) => (a, b | m),
        (TileKind::Wall, TileKind::Empty) | (TileKind::Stairs, TileKind::Door) => (a & !m, b),
        (TileKind::Door, TileKind::Empty) | (TileKind::Stairs, TileKind::Wall) => (a, b & !m),
        (TileKind::Empty, TileKind::Stairs) => (a | m, b | m),
        (TileKind::Door, TileKind::Wall) => (a | m, b & !m),
        (TileKind::Wall, TileKind::Door) => (a & !m, b | m),
        (TileKind::Stairs, TileKind::Empty) => (a & !m, b & !m),
        _ => (a, b),
    }
}

impl TileAdjacency {
    /// The first set of the pair.
    pub closed spec fn first(self) -> u8 {
        self.0.view_bits()
    }

    /// The second set of the pair.
    pub closed spec fn second(self) -> u8 {
        self.1.view_bits()
    }

    /// No neighbour known: all of them empty.
    #[allow(non_snake_case)]
    pub fn NONE() -> (r: Self)
        ensures
            r.first() == 0,
            r.second() == 0,
    {
        TileAdjacency(Adjacency::NONE(), Adjacency::NONE())
    }

    pub fn solid(&self) -> (r: Adjacency)
        ensures
            r.view_bits() == solids_of(self.first(), self.second()),
    {
        self.0.symmetric_difference(self.1)
    }

    pub fn empty(&self) -> (r: Adjacency)
        ensures
            r.view_bits() == empties_of(self.first(), self.second()),
    {
        self.0.union(self.1).complement()
    }

    pub fn walls(&self) -> (r: Adjacency)
        ensures
            r.view_bits() == walls_of(self.first(), self.second()),
    {
        self.0.intersection(self.1.complement())
    }

    pub fn doors(&self) -> (r: Adjacency)
        ensures
            r.view_bits() == doors_of(self.first(), self.second()),
    {
        self.1.intersection(self.0.complement())
    }

    pub fn stairs(&self) -> (r: Adjacency)
        ensures
            r.view_bits() == stairs_of(self.first(), self.second()),
    {
        self.0.intersection(self.1)
    }

    pub fn get(&self, kind: TileKind) -> (r: Adjacency)
        ensures
            r.view_bits() == kind_set(self.first(), self.second(), kind),
    {
        match kind {
            TileKind::Empty => self.empty(),
            TileKind::Wall => self.walls(),
            TileKind::Door => self.doors(),
            TileKind::Stairs => self.stairs(),
        }
    }

    /// Records that the neighbours in `adjacency`, all of kind
    /// `prev_material`, are now of kind `current_material`.
    pub fn update(&mut self, adjacency: Adjacency, prev_material: TileKind, current_material: TileKind)
        requires
            kind_set(old(self).first(), old(self).second(), prev_material) & adjacency.view_bits()
                == adjacency.view_bits(),
        ensures
            (final(self).first(), final(self).second()) == updated_pair(
                old(self).first(),
                old(self).second(),
                adjacency.view_bits(),
                prev_material,
                current_material,
            ),
    {
        match (prev_material, current_material) {
            (TileKind::Empty, TileKind::Empty)
            | (TileKind::Wall, TileKind::Wall)
            | (TileKind::Door, TileKind::Door)
            | (TileKind::Stairs, TileKind::Stairs) => {},
            (TileKind::Empty, TileKind::Wall) | (TileKind::Door, TileKind::Stairs) => {
                self.0.insert(adjacency)
            },
            (TileKind::Empty, TileKind::Door) | (TileKind::Wall, TileKind::Stairs) => {
                self.1.insert(adjacency)
            },
            (TileKind::Wall, TileKind::Empty) | (TileKind::Stairs, TileKind::Door) => {
                self.0.remove(adjacency);
            },
            (TileKind::Door, TileKind::Empty) | (TileKind::Stairs, TileKind::Wall) => {
                self.1.remove(adjacency);
            },
            (TileKind::Empty, TileKind::Stairs) => {
                self.0.insert(adjacency);
                self.1.insert(adjacency);
            },
            (TileKind::Door, TileKind::Wall) => {
                self.1.remove(adjacency);
                self.0.insert(adjacency);
            },
            (TileKind::Wall, TileKind::Door) => {
                self.0.remove(adjacency);
                self.1.insert(adjacency);
            },
            (TileKind::Stairs, TileKind::Empty) => {
                self.0.remove(adjacency);
                self.1.remove(adjacency);
            },
        }
    }
}

impl Default for TileAdjacency {
    fn default() -> (r: Self)
        ensures
            r.first() == 0,
            r.second() == 0,
    {
        TileAdjacency::NONE()
    }
}

/// The four kinds partition the neighbours: every neighbour is of exactly
/// one kind.
pub proof fn lemma_kinds_partition(a: u8, b: u8)
    ensures
        empties_of(a, b) | walls_of(a, b) | doors_of(a, b) | stairs_of(a, b) == 0xff,
        empties_of(a, b) & walls_of(a, b) == 0,
        empties_of(a, b) & doors_of(a, b) == 0,
        empties_of(a, b) & stairs_of(a, b) == 0,
        walls_of(a, b) & doors_of(a, b) == 0,
        walls_of(a, b) & stairs_of(a, b) == 0,
        doors_of(a, b) & stairs_of(a, b) == 0,
        solids_of(a, b) == walls_of(a, b) | doors_of(a, b),
{
    assert(
        (!(a | b) | (a & !b) | (b & !a) | (a & b) == 0xff) &&
        (!(a | b) & (a & !b) == 0) &&
        (!(a | b) & (b & !a) == 0) &&
        (!(a | b) & (a & b) == 0) &&
        ((a & !b) & (b & !a) == 0) &&
        ((a & !b) & (a & b) == 0) &&
        ((b & !a) & (a & b) == 0) &&
        (a ^ b == (a & !b) | (b & !a))
    ) by (bit_vector);
}

/// After an update, the changed neighbours are of the new kind, and the
/// kinds of all other neighbours are unchanged.
pub proof fn lemma_update(a: u8, b: u8, m: u8, prev: TileKind, cur: TileKind)
    requires
        kind_set(a, b, prev) & m == m,
    ensures
        ({
            let (a2, b2) = updated_pair(a, b, m, prev, cur);
            &&& kind_set(a2, b2, cur) & m == m
            &&& kind_set(a2, b2, TileKind::Empty) & !m == kind_set(a, b, TileKind::Empty) & !m
            &&& kind_set(a2, b2, TileKind::Wall) & !m == kind_set(a, b, TileKind::Wall) & !m
            &&& kind_set(a2, b2, TileKind::Door) & !m == kind_set(a, b, TileKind::Door) & !m
            &&& kind_set(a2, b2, TileKind::Stairs) & !m == kind_set(a, b, TileKind::Stairs) & !m
        }),
{
    let (a2, b2) = updated_pair(a, b, m, prev, cur);
    // The pair outside `m` never changes.
    assert(a2 & !m == a & !m && b2 & !m == b & !m) by {
        assert((a | m) & !m == a & !m && (b | m) & !m == b & !m && (a & !m) & !m == a & !m && (b
            & !m) & !m == b & !m) by (bit_vector);
    }
    assert(forall|x: u8, y: u8, x2: u8, y2: u8|
        x2 & !m == x & !m && y2 & !m == y & !m ==> {
            &&& (!(x2 | y2)) & !m == (!(x | y)) & !m
            &&& (x2 & !y2) & !m == (x & !y) & !m
            &&& (y2 & !x2) & !m == (y & !x) & !m
            &&& (x2 & y2) & !m == (x & y) & !m
        }) by (bit_vector);
    // Inside `m`, the pair is set to the code of the new kind.
    assert(kind_set(a2, b2, cur) & m == m) by {
        match (prev, cur) {
            (TileKind::Empty, TileKind::Empty) => {},
            (TileKind::Wall, TileKind::Wall) => {},
            (TileKind::Door, TileKind::Door) => {},
            (TileKind::Stairs, TileKind::Stairs) => {},
            (TileKind::Empty, TileKind::Wall) => {
                assert(!(a | b) & m == m ==> ((a | m) & !b) & m == m) by (bit_vector);
            },
            (TileKind::Door, TileKind::Stairs) => {
                assert((b & !a) & m == m ==> ((a | m) & b) & m == m) by (bit_vector);
            },
            (TileKind::Empty, TileKind::Door) => {
                assert(!(a | b) & m == m ==> ((b | m) & !a) & m == m) by (bit_vector);
            },
            (TileKind::Wall, TileKind::Stairs) => {
                assert((a & !b) & m == m ==> (a & (b | m)) & m == m) by (bit_vector);
            },
            (TileKind::Wall, TileKind::Empty) => {
                assert((a & !b) & m == m ==> !((a & !m) | b) & m == m) by (bit_vector);
            },
            (TileKind::Stairs, TileKind::Door) => {
                assert((a & b) & m == m ==> (b & !(a & !m)) & m == m) by (bit_vector);
            },
            (TileKind::Door, TileKind::Empty) => {
                assert((b & !a) & m == m ==> !(a | (b & !m)) & m == m) by (bit_vector);
            },
            (TileKind::Stairs, TileKind::Wall) => {
                assert((a & b) & m == m ==> (a & !(b & !m)) & m == m) by (bit_vector);
            },
            (TileKind::Empty, TileKind::Stairs) => {
                assert(((a | m) & (b | m)) & m == m) by (bit_vector);
            },
            (TileKind::Door, TileKind::Wall) => {
                assert(((a | m) & !(b & !m)) & m == m) by (bit_vector);
            },
            (TileKind::Wall, TileKind::Door) => {
                assert(((b | m) & !(a & !m)) & m == m) by (bit_vector);
            },
            (TileKind::Stairs, TileKind::Empty) => {
                assert(!((a & !m) | (b & !m)) & m == m) by (bit_vector);
            },
        }
    }
}

} // verus!
