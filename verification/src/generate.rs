//! Generation of a grid of macro tiles by wave function collapse: each cell
//! holds the set of tiles it may still take, as a mask; cells are fixed one
//! by one, the cell with the fewest choices first, and each choice is
//! propagated to the neighbours until every pair of neighbours agrees.
use std::collections::VecDeque;
use rand::rngs::ThreadRng;
use rand::RngExt;
use vstd::arithmetic::div_mod::lemma_fundamental_div_mod;
use vstd::arithmetic::div_mod::lemma_fundamental_div_mod_converse;
use vstd::prelude::*;

verus! {

/// The number of cells across and down the grid.
pub const MAP_SIZE: usize = 126;

/// The number of cells that a mutation clears before the grid is generated
/// again around them.
pub const GRID_MUTATION_TILES: usize = 4;

/// The mask of every tile.
pub const ALL_TILE_MASK: u8 = 0x3f;

/// What a cell of the grid holds.
#[derive(Debug, Clone, Copy, PartialEq, Eq, Structural)]
pub enum MacroTile {
    Outside,
    Inside,
    CellsNorth,
    CellsSouth,
    CellsEast,
    CellsWest,
}

/// The side of a cell on which a neighbour lies.
#[derive(Debug, Clone, Copy, PartialEq, Eq, Structural)]
pub enum Direction {
    North,
    South,
    East,
    West,
}

/// Whether the tile is one of the four rows of cells.
pub open spec fn is_cells(t: MacroTile) -> bool {
    t is CellsNorth || t is CellsSouth || t is CellsEast || t is CellsWest
}

/// Whether `b` may lie on side `d` of `a`: a row of cells opens towards an
/// inside tile on its side, and only an inside tile may lie there; a row of
/// cells opening the other way must have an inside tile on the far side.
pub open spec fn allowed(a: MacroTile, d: Direction, b: MacroTile) -> bool {
    match d {
        Direction::North => match (a, b) {
            (MacroTile::CellsNorth, MacroTile::Inside) | (MacroTile::Inside, MacroTile::CellsSouth) => true,
            (MacroTile::CellsNorth, _) | (_, MacroTile::CellsSouth) => false,
            _ => true,
        },
        Direction::South => match (a, b) {
            (MacroTile::CellsSouth, MacroTile::Inside) | (MacroTile::Inside, MacroTile::CellsNorth) => true,
            (MacroTile::CellsSouth, _) | (_, MacroTile::CellsNorth) => false,
            _ => true,
        },
        Direction::East => match (a, b) {
            (MacroTile::CellsEast, MacroTile::Inside) | (MacroTile::Inside, MacroTile::CellsWest) => true,
            (MacroTile::CellsEast, _) | (_, MacroTile::CellsWest) => false,
            _ => true,
        },
        Direction::West => match (a, b) {
            (MacroTile::CellsWest, MacroTile::Inside) | (MacroTile::Inside, MacroTile::CellsEast) => true,
            (MacroTile::CellsWest, _) | (_, MacroTile::CellsEast) => false,
            _ => true,
        },
    }
}

impl MacroTile {
    pub(crate) fn is_cells_variant(&self) -> (r: bool)
        ensures
            r == is_cells(*self),
    {
        matches!(
            self,
            MacroTile::CellsNorth | MacroTile::CellsSouth | MacroTile::CellsEast
                | MacroTile::CellsWest
        )
    }

    /// Whether `other` may lie north of this tile.
    pub fn allowed_north(&self, other: MacroTile) -> (r: bool)
        ensures
            r == allowed(*self, Direction::North, other),
    {
        match (*self, other) {
            (MacroTile::CellsNorth, MacroTile::Inside) | (MacroTile::Inside, MacroTile::CellsSouth) => true,
            (MacroTile::CellsNorth, _) | (_, MacroTile::CellsSouth) => false,
            _ => true,
        }
    }

    /// Whether `other` may lie south of this tile.
    pub fn allowed_south(&self, other: MacroTile) -> (r: bool)
        ensures
            r == allowed(*self, Direction::South, other),
    {
        match (*self, other) {
            (MacroTile::CellsSouth, MacroTile::Inside) | (MacroTile::Inside, MacroTile::CellsNorth) => true,
            (MacroTile::CellsSouth, _) | (_, MacroTile::CellsNorth) => false,
            _ => true,
        }
    }

    /// Whether `other` may lie east of this tile.
    pub fn allowed_east(&self, other: MacroTile) -> (r: bool)
        ensures
            r == allowed(*self, Direction::East, other),
    {
        match (*self, other) {
            (MacroTile::CellsEast, MacroTile::Inside) | (MacroTile::Inside, MacroTile::CellsWest) => true,
            (MacroTile::CellsEast, _) | (_, MacroTile::CellsWest) => false,
            _ => true,
        }
    }

    /// Whether `other` may lie west of this tile.
    pub fn allowed_west(&self, other: MacroTile) -> (r: bool)
        ensures
            r == allowed(*self, Direction::West, other),
    {
        match (*self, other) {
            (MacroTile::CellsWest, MacroTile::Inside) | (MacroTile::Inside, MacroTile::CellsEast) => true,
            (MacroTile::CellsWest, _) | (_, MacroTile::CellsEast) => false,
            _ => true,
        }
    }
}

/// Whether `b` may lie on side `d` of `a`.
fn allowed_towards(a: MacroTile, d: Direction, b: MacroTile) -> (r: bool)
    ensures
        r == allowed(a, d, b),
{
    match d {
        Direction::North => a.allowed_north(b),
        Direction::South => a.allowed_south(b),
        Direction::East => a.allowed_east(b),
        Direction::West => a.allowed_west(b),
    }
}

/// The tiles in the order of their bits.
pub open spec fn all_tiles() -> Seq<MacroTile> {
    seq![
        MacroTile::Outside,
        MacroTile::Inside,
        MacroTile::CellsNorth,
        MacroTile::CellsSouth,
        MacroTile::CellsEast,
        MacroTile::CellsWest,
    ]
}

/// The bit of a tile in a mask.
pub open spec fn bit(t: MacroTile) -> u8 {
    match t {
        MacroTile::Outside => 0x01,
        MacroTile::Inside => 0x02,
        MacroTile::CellsNorth => 0x04,
        MacroTile::CellsSouth => 0x08,
        MacroTile::CellsEast => 0x10,
        MacroTile::CellsWest => 0x20,
    }
}

/// Whether the mask holds the tile.
pub open spec fn has(mask: u8, t: MacroTile) -> bool {
    mask & bit(t) != 0
}

/// Whether every tile of `a` is in `b`.
pub open spec fn subset(a: u8, b: u8) -> bool {
    a & !b == 0
}

/// Whether some tile of `mask` lets `b` lie on its side `d`.
pub open spec fn supports(mask: u8, d: Direction, b: MacroTile) -> bool {
    ||| has(mask, MacroTile::Outside) && allowed(MacroTile::Outside, d, b)
    ||| has(mask, MacroTile::Inside) && allowed(MacroTile::Inside, d, b)
    ||| has(mask, MacroTile::CellsNorth) && allowed(MacroTile::CellsNorth, d, b)
    ||| has(mask, MacroTile::CellsSouth) && allowed(MacroTile::CellsSouth, d, b)
    ||| has(mask, MacroTile::CellsEast) && allowed(MacroTile::CellsEast, d, b)
    ||| has(mask, MacroTile::CellsWest) && allowed(MacroTile::CellsWest, d, b)
}

/// The mask of six bits whose bits are set where the flags hold.
pub open spec fn mask_of(s0: bool, s1: bool, s2: bool, s3: bool, s4: bool, s5: bool) -> u8 {
    (if s0 {
        1u8
    } else {
        0u8
    }) | (if s1 {
        2u8
    } else {
        0u8
    }) | (if s2 {
        4u8
    } else {
        0u8
    }) | (if s3 {
        8u8
    } else {
        0u8
    }) | (if s4 {
        16u8
    } else {
        0u8
    }) | (if s5 {
        32u8
    } else {
        0u8
    })
}

/// The tiles that may lie on side `d` of a cell that may hold any tile of
/// `mask`.
pub open spec fn compat(mask: u8, d: Direction) -> u8 {
    mask_of(
        supports(mask, d, MacroTile::Outside),
        supports(mask, d, MacroTile::Inside),
        supports(mask, d, MacroTile::CellsNorth),
        supports(mask, d, MacroTile::CellsSouth),
        supports(mask, d, MacroTile::CellsEast),
        supports(mask, d, MacroTile::CellsWest),
    )
}

/// The bits of a mask of six bits are its flags.
proof fn lemma_mask_of(s0: bool, s1: bool, s2: bool, s3: bool, s4: bool, s5: bool)
    by (bit_vector)
    ensures
        (mask_of(s0, s1, s2, s3, s4, s5) & 1u8 != 0) == s0,
        (mask_of(s0, s1, s2, s3, s4, s5) & 2u8 != 0) == s1,
        (mask_of(s0, s1, s2, s3, s4, s5) & 4u8 != 0) == s2,
        (mask_of(s0, s1, s2, s3, s4, s5) & 8u8 != 0) == s3,
        (mask_of(s0, s1, s2, s3, s4, s5) & 16u8 != 0) == s4,
        (mask_of(s0, s1, s2, s3, s4, s5) & 32u8 != 0) == s5,
        mask_of(s0, s1, s2, s3, s4, s5) & 0xc0u8 == 0,
{
}

/// A mask of six bits lies within another mask where each of its bits does.
proof fn lemma_subset_by_bits(x: u8, y: u8)
    by (bit_vector)
    requires
        x & 0xc0u8 == 0,
        x & 1u8 != 0 ==> y & 1u8 != 0,
        x & 2u8 != 0 ==> y & 2u8 != 0,
        x & 4u8 != 0 ==> y & 4u8 != 0,
        x & 8u8 != 0 ==> y & 8u8 != 0,
        x & 16u8 != 0 ==> y & 16u8 != 0,
        x & 32u8 != 0 ==> y & 32u8 != 0,
    ensures
        x & !y == 0,
{
}

/// What the bits of a subset, of an intersection and of a union hold.
proof fn lemma_bit_ops(q: u8, p: u8, c: u8)
    by (bit_vector)
    ensures
        q & !q == 0,
        (q & !p == 0 && p & !c == 0) ==> q & !c == 0,
        (p & c) & !p == 0,
        (p & c) & !c == 0,
        (p & c) != p ==> (p & c) < p,
        (q & !p == 0 && q & !c == 0) ==> q & !(p & c) == 0,
        (p & c) == p ==> p & !c == 0,
        q & !p == 0 && p == 0 ==> q == 0,
        q & !p == 0 ==> q <= p,
        q & !p == 0 && q != p ==> q < p,
        q & !p == 0 ==> ((q & 1u8 != 0 ==> p & 1u8 != 0) && (q & 2u8 != 0 ==> p & 2u8 != 0) && (q
            & 4u8 != 0 ==> p & 4u8 != 0) && (q & 8u8 != 0 ==> p & 8u8 != 0) && (q & 16u8 != 0 ==> p
            & 16u8 != 0) && (q & 32u8 != 0 ==> p & 32u8 != 0)),
        ((q | c) & 1u8 != 0) == ((q & 1u8 != 0) || (c & 1u8 != 0)),
        ((q | c) & 2u8 != 0) == ((q & 2u8 != 0) || (c & 2u8 != 0)),
        ((q | c) & 4u8 != 0) == ((q & 4u8 != 0) || (c & 4u8 != 0)),
        ((q | c) & 8u8 != 0) == ((q & 8u8 != 0) || (c & 8u8 != 0)),
        ((q | c) & 16u8 != 0) == ((q & 16u8 != 0) || (c & 16u8 != 0)),
        ((q | c) & 32u8 != 0) == ((q & 32u8 != 0) || (c & 32u8 != 0)),
        ((q | c) & 0xc0u8) == ((q & 0xc0u8) | (c & 0xc0u8)),
        (q & 0xc0u8 == 0 && c & 0xc0u8 == 0) ==> (q | c) & 0xc0u8 == 0,
        0u8 & 0xc0u8 == 0,
        0u8 & q == 0,
        q & 0xc0u8 == 0 && p & 0xc0u8 == 0 && (q & 1u8 != 0) == (p & 1u8 != 0) && (q & 2u8 != 0)
            == (p & 2u8 != 0) && (q & 4u8 != 0) == (p & 4u8 != 0) && (q & 8u8 != 0) == (p & 8u8
            != 0) && (q & 16u8 != 0) == (p & 16u8 != 0) && (q & 32u8 != 0) == (p & 32u8 != 0) ==> q
            == p,
{
}

/// The bits of the masks of single tiles and of the mask of every tile.
proof fn lemma_tile_bits()
    by (bit_vector)
    ensures
        1u8 & 1u8 != 0 && 1u8 & 2u8 == 0 && 1u8 & 4u8 == 0 && 1u8 & 8u8 == 0 && 1u8 & 16u8 == 0
            && 1u8 & 32u8 == 0 && 1u8 & 0xc0u8 == 0,
        2u8 & 1u8 == 0 && 2u8 & 2u8 != 0 && 2u8 & 4u8 == 0 && 2u8 & 8u8 == 0 && 2u8 & 16u8 == 0
            && 2u8 & 32u8 == 0 && 2u8 & 0xc0u8 == 0,
        4u8 & 1u8 == 0 && 4u8 & 2u8 == 0 && 4u8 & 4u8 != 0 && 4u8 & 8u8 == 0 && 4u8 & 16u8 == 0
            && 4u8 & 32u8 == 0 && 4u8 & 0xc0u8 == 0,
        8u8 & 1u8 == 0 && 8u8 & 2u8 == 0 && 8u8 & 4u8 == 0 && 8u8 & 8u8 != 0 && 8u8 & 16u8 == 0
            && 8u8 & 32u8 == 0 && 8u8 & 0xc0u8 == 0,
        16u8 & 1u8 == 0 && 16u8 & 2u8 == 0 && 16u8 & 4u8 == 0 && 16u8 & 8u8 == 0 && 16u8 & 16u8
            != 0 && 16u8 & 32u8 == 0 && 16u8 & 0xc0u8 == 0,
        32u8 & 1u8 == 0 && 32u8 & 2u8 == 0 && 32u8 & 4u8 == 0 && 32u8 & 8u8 == 0 && 32u8 & 16u8
            == 0 && 32u8 & 32u8 != 0 && 32u8 & 0xc0u8 == 0,
        0x3fu8 & 1u8 != 0 && 0x3fu8 & 2u8 != 0 && 0x3fu8 & 4u8 != 0 && 0x3fu8 & 8u8 != 0 && 0x3fu8
            & 16u8 != 0 && 0x3fu8 & 32u8 != 0 && 0x3fu8 & 0xc0u8 == 0,
{
}

/// A mask of a single tile holds that tile alone.
proof fn lemma_has_bit(a: MacroTile, t: MacroTile)
    ensures
        has(bit(a), t) == (a == t),
        bit(a) & 0xc0u8 == 0,
        bit(a) != 0,
{
    lemma_tile_bits();
}

/// The tiles that may lie beside a cell are its compatible mask.
proof fn lemma_compat_has(mask: u8, d: Direction)
    ensures
        forall|b: MacroTile| #[trigger] has(compat(mask, d), b) == supports(mask, d, b),
        compat(mask, d) & 0xc0u8 == 0,
{
    lemma_mask_of(
        supports(mask, d, MacroTile::Outside),
        supports(mask, d, MacroTile::Inside),
        supports(mask, d, MacroTile::CellsNorth),
        supports(mask, d, MacroTile::CellsSouth),
        supports(mask, d, MacroTile::CellsEast),
        supports(mask, d, MacroTile::CellsWest),
    );
}

/// Fewer tiles in a cell leave fewer tiles beside it.
proof fn lemma_compat_monotonic(a: u8, b: u8, d: Direction)
    requires
        subset(a, b),
    ensures
        subset(compat(a, d), compat(b, d)),
{
    lemma_bit_ops(a, b, 0);
    lemma_compat_has(a, d);
    lemma_compat_has(b, d);
    let x = compat(a, d);
    let y = compat(b, d);
    assert(has(x, MacroTile::Outside) ==> has(y, MacroTile::Outside));
    assert(has(x, MacroTile::Inside) ==> has(y, MacroTile::Inside));
    assert(has(x, MacroTile::CellsNorth) ==> has(y, MacroTile::CellsNorth));
    assert(has(x, MacroTile::CellsSouth) ==> has(y, MacroTile::CellsSouth));
    assert(has(x, MacroTile::CellsEast) ==> has(y, MacroTile::CellsEast));
    assert(has(x, MacroTile::CellsWest) ==> has(y, MacroTile::CellsWest));
    lemma_subset_by_bits(x, y);
}

/// Beside a cell holding a single tile lie only the tiles it allows.
proof fn lemma_compat_single(a: MacroTile, b: MacroTile, d: Direction)
    requires
        subset(bit(b), compat(bit(a), d)),
    ensures
        allowed(a, d, b),
{
    lemma_has_bit(b, b);
    lemma_bit_ops(bit(b), compat(bit(a), d), 0);
    lemma_compat_has(bit(a), d);
    assert(has(compat(bit(a), d), b));
    lemma_has_bit(a, MacroTile::Outside);
    lemma_has_bit(a, MacroTile::Inside);
    lemma_has_bit(a, MacroTile::CellsNorth);
    lemma_has_bit(a, MacroTile::CellsSouth);
    lemma_has_bit(a, MacroTile::CellsEast);
    lemma_has_bit(a, MacroTile::CellsWest);
}

/// Every tile may lie beside a cell that may hold any tile.
proof fn lemma_compat_all(d: Direction)
    ensures
        subset(ALL_TILE_MASK, compat(ALL_TILE_MASK, d)),
{
    lemma_tile_bits();
    lemma_compat_has(ALL_TILE_MASK, d);
    let y = compat(ALL_TILE_MASK, d);
    assert(has(y, MacroTile::Outside));
    assert(has(y, MacroTile::Inside));
    assert(has(y, MacroTile::CellsNorth));
    assert(has(y, MacroTile::CellsSouth));
    assert(has(y, MacroTile::CellsEast));
    assert(has(y, MacroTile::CellsWest));
    lemma_subset_by_bits(ALL_TILE_MASK, y);
}

/// The mask of a single tile.
fn mask_for_tile(tile: MacroTile) -> (r: u8)
    ensures
        r == bit(tile),
{
    match tile {
        MacroTile::Outside => 1,
        MacroTile::Inside => 2,
        MacroTile::CellsNorth => 4,
        MacroTile::CellsSouth => 8,
        MacroTile::CellsEast => 16,
        MacroTile::CellsWest => 32,
    }
}

/// The tiles among the first `n` that the mask holds, in order.
pub open spec fn tiles_in(mask: u8, n: nat) -> Seq<MacroTile>
    decreases n,
{
    if n == 0 {
        Seq::empty()
    } else {
        let rest = tiles_in(mask, (n - 1) as nat);
        if has(mask, all_tiles()[n - 1]) {
            rest.push(all_tiles()[n - 1])
        } else {
            rest
        }
    }
}

/// The tiles that the mask holds, in order.
fn tiles_from_mask(mask: u8) -> (r: Vec<MacroTile>)
    ensures
        r@ == tiles_in(mask, 6),
{
    let all = [
        MacroTile::Outside,
        MacroTile::Inside,
        MacroTile::CellsNorth,
        MacroTile::CellsSouth,
        MacroTile::CellsEast,
        MacroTile::CellsWest,
    ];
    assert(all@ == all_tiles());
    let mut r: Vec<MacroTile> = Vec::new();
    let mut i: usize = 0;
    while i < 6
        invariant
            i <= 6,
            all@ == all_tiles(),
            r@ == tiles_in(mask, i as nat),
        decreases 6 - i,
    {
        let tile = all[i];
        if mask & mask_for_tile(tile) != 0 {
            r.push(tile);
        }
        i = i + 1;
    }
    r
}

/// A tile that the mask holds is among its tiles, and each of its tiles is
/// held.
proof fn lemma_tiles_in(mask: u8, n: nat, t: MacroTile)
    requires
        n <= 6,
    ensures
        tiles_in(mask, n).contains(t) <==> exists|i: int| 0 <= i < n && all_tiles()[i] == t && has(mask, t),
    decreases n,
{
    if n > 0 {
        lemma_tiles_in(mask, (n - 1) as nat, t);
        let rest = tiles_in(mask, (n - 1) as nat);
        if has(mask, all_tiles()[n - 1]) {
            vstd::seq_lib::lemma_seq_contains_after_push(rest, all_tiles()[n - 1], t);
        }
    }
}

/// The tiles that may lie on side `d` of a cell that may hold any tile of
/// `source_mask`.
fn compatible_neighbor_mask(source_mask: u8, direction: Direction) -> (r: u8)
    ensures
        r == compat(source_mask, direction),
{
    let all = [
        MacroTile::Outside,
        MacroTile::Inside,
        MacroTile::CellsNorth,
        MacroTile::CellsSouth,
        MacroTile::CellsEast,
        MacroTile::CellsWest,
    ];
    assert(all@ == all_tiles());
    let sources = tiles_from_mask(source_mask);
    let mut neighbor_mask: u8 = 0;
    let mut i: usize = 0;
    proof {
        lemma_bit_ops(0, 0, 0);
        assert forall|b: MacroTile| #[trigger] has(neighbor_mask, b) == false by {
            lemma_bit_ops(bit(b), 0, 0);
        }
    }
    while i < sources.len()
        invariant
            i <= sources@.len(),
            sources@ == tiles_in(source_mask, 6),
            all@ == all_tiles(),
            neighbor_mask & 0xc0u8 == 0,
            forall|b: MacroTile| #[trigger]
                has(neighbor_mask, b) == exists|k: int|
                    0 <= k < i && allowed(sources@[k], direction, b),
        decreases sources@.len() - i,
    {
        let source_tile = sources[i];
        let mut j: usize = 0;
        while j < 6
            invariant
                i < sources@.len(),
                source_tile == sources@[i as int],
                j <= 6,
                all@ == all_tiles(),
                neighbor_mask & 0xc0u8 == 0,
                forall|b: MacroTile| #[trigger]
                    has(neighbor_mask, b) == ((exists|k: int|
                        0 <= k < i && allowed(sources@[k], direction, b)) || (allowed(
                        source_tile,
                        direction,
                        b,
                    ) && exists|m: int| 0 <= m < j && all_tiles()[m] == b)),
            decreases 6 - j,
        {
            let neighbor_tile = all[j];
            if allowed_towards(source_tile, direction, neighbor_tile) {
                let ghost before = neighbor_mask;
                neighbor_mask = neighbor_mask | mask_for_tile(neighbor_tile);
                proof {
                    lemma_bit_ops(before, 0, bit(neighbor_tile));
                    assert forall|b: MacroTile| #[trigger]
                        has(neighbor_mask, b) == (has(before, b) || b == neighbor_tile) by {
                        lemma_has_bit(neighbor_tile, b);
                    }
                    lemma_has_bit(neighbor_tile, neighbor_tile);
                }
            }
            proof {
                assert forall|b: MacroTile| #[trigger]
                    has(neighbor_mask, b) == ((exists|k: int|
                        0 <= k < i && allowed(sources@[k], direction, b)) || (allowed(
                        source_tile,
                        direction,
                        b,
                    ) && exists|m: int| 0 <= m < j + 1 && all_tiles()[m] == b)) by {
                    if all_tiles()[j as int] == b {
                        assert(0 <= j < j + 1 && all_tiles()[j as int] == b);
                    }
                }
            }
            j = j + 1;
        }
        proof {
            assert forall|b: MacroTile| #[trigger]
                has(neighbor_mask, b) == exists|k: int|
                    0 <= k < i + 1 && allowed(sources@[k], direction, b) by {
                let m = match b {
                    MacroTile::Outside => 0int,
                    MacroTile::Inside => 1int,
                    MacroTile::CellsNorth => 2int,
                    MacroTile::CellsSouth => 3int,
                    MacroTile::CellsEast => 4int,
                    MacroTile::CellsWest => 5int,
                };
                assert(all_tiles()[m] == b);
                if exists|k: int| 0 <= k < i + 1 && allowed(sources@[k], direction, b) {
                    let k = choose|k: int| 0 <= k < i + 1 && allowed(sources@[k], direction, b);
                    if k < i {
                        assert(0 <= k < i && allowed(sources@[k], direction, b));
                    }
                }
            }
        }
        i = i + 1;
    }
    proof {
        let x = compat(source_mask, direction);
        lemma_compat_has(source_mask, direction);
        assert forall|b: MacroTile| #[trigger] has(neighbor_mask, b) == has(x, b) by {
            if has(neighbor_mask, b) {
                let k = choose|k: int| 0 <= k < sources@.len() && allowed(sources@[k], direction, b);
                lemma_tiles_in(source_mask, 6, sources@[k]);
                assert(sources@.contains(sources@[k]));
            }
            if supports(source_mask, direction, b) {
                let a = choose|a: MacroTile| has(source_mask, a) && allowed(a, direction, b) && (a
                    == MacroTile::Outside || a == MacroTile::Inside || a == MacroTile::CellsNorth
                    || a == MacroTile::CellsSouth || a == MacroTile::CellsEast || a
                    == MacroTile::CellsWest);
                let m = match a {
                    MacroTile::Outside => 0int,
                    MacroTile::Inside => 1int,
                    MacroTile::CellsNorth => 2int,
                    MacroTile::CellsSouth => 3int,
                    MacroTile::CellsEast => 4int,
                    MacroTile::CellsWest => 5int,
                };
                assert(all_tiles()[m] == a);
                lemma_tiles_in(source_mask, 6, a);
                let k = choose|k: int| 0 <= k < sources@.len() && sources@[k] == a;
                assert(0 <= k < sources@.len() && allowed(sources@[k], direction, b));
            }
        }
        assert(has(neighbor_mask, MacroTile::Outside) == has(x, MacroTile::Outside));
        assert(has(neighbor_mask, MacroTile::Inside) == has(x, MacroTile::Inside));
        assert(has(neighbor_mask, MacroTile::CellsNorth) == has(x, MacroTile::CellsNorth));
        assert(has(neighbor_mask, MacroTile::CellsSouth) == has(x, MacroTile::CellsSouth));
        assert(has(neighbor_mask, MacroTile::CellsEast) == has(x, MacroTile::CellsEast));
        assert(has(neighbor_mask, MacroTile::CellsWest) == has(x, MacroTile::CellsWest));
        lemma_bit_ops(neighbor_mask, x, 0);
    }
    neighbor_mask
}

/// The number of cells of the grid.
pub open spec fn cells() -> int {
    MAP_SIZE as int * MAP_SIZE as int
}

/// The cell on side `d` of cell `c`, the cells numbered row by row from
/// the north-west corner; `None` at the edge of the grid.
pub open spec fn neighbor(c: int, d: Direction) -> Option<int> {
    let x = c % MAP_SIZE as int;
    let y = c / MAP_SIZE as int;
    match d {
        Direction::North => if y > 0 {
            Some(c - MAP_SIZE as int)
        } else {
            None
        },
        Direction::South => if y + 1 < MAP_SIZE {
            Some(c + MAP_SIZE as int)
        } else {
            None
        },
        Direction::East => if x + 1 < MAP_SIZE {
            Some(c + 1)
        } else {
            None
        },
        Direction::West => if x > 0 {
            Some(c - 1)
        } else {
            None
        },
    }
}

/// Whether every tile left on side `d` of cell `c` may lie beside some
/// tile left in `c`.
pub open spec fn agrees(p: Seq<u8>, c: int, d: Direction) -> bool {
    match neighbor(c, d) {
        Some(n) => subset(p[n], compat(p[c], d)),
        None => true,
    }
}

/// Whether cell `c` agrees with each of its neighbours.
pub open spec fn consistent_at(p: Seq<u8>, c: int) -> bool {
    &&& agrees(p, c, Direction::North)
    &&& agrees(p, c, Direction::South)
    &&& agrees(p, c, Direction::East)
    &&& agrees(p, c, Direction::West)
}

/// Whether the masks of the grid agree everywhere.
pub open spec fn consistent(p: Seq<u8>) -> bool {
    &&& p.len() == cells()
    &&& forall|c: int| 0 <= c < cells() ==> #[trigger] consistent_at(p, c)
}

/// Whether each cell of `q` holds no tile that the same cell of `p` lacks.
pub open spec fn refines(q: Seq<u8>, p: Seq<u8>) -> bool {
    &&& q.len() == p.len()
    &&& forall|i: int| 0 <= i < q.len() ==> #[trigger] subset(q[i], p[i])
}

/// Whether every cell may still hold some tile.
pub open spec fn nonzero(p: Seq<u8>) -> bool {
    forall|i: int| 0 <= i < p.len() ==> #[trigger] p[i] != 0
}

/// Whether every refinement of `start` whose cells agree lies within `p`.
pub open spec fn holds_all_agreeing(p: Seq<u8>, start: Seq<u8>) -> bool {
    forall|q: Seq<u8>| #[trigger] refines(q, start) && consistent(q) ==> refines(q, p)
}

/// Whether `p` is the greatest refinement of `start` whose cells agree, with
/// no cell left empty.
pub open spec fn greatest_consistent(p: Seq<u8>, start: Seq<u8>) -> bool {
    &&& consistent(p)
    &&& refines(p, start)
    &&& nonzero(p)
    &&& holds_all_agreeing(p, start)
}

/// Whether some refinement of `start` whose cells agree leaves no cell empty.
pub open spec fn solvable(start: Seq<u8>) -> bool {
    exists|q: Seq<u8>| refines(q, start) && consistent(q) && nonzero(q)
}

/// The sum of the masks, which shrinks as tiles are ruled out.
pub open spec fn mask_sum(s: Seq<u8>) -> nat
    decreases s.len(),
{
    if s.len() == 0 {
        0
    } else {
        mask_sum(s.drop_last()) + s.last() as nat
    }
}

proof fn lemma_mask_sum_update(s: Seq<u8>, i: int, v: u8)
    requires
        0 <= i < s.len(),
    ensures
        mask_sum(s.update(i, v)) + s[i] == mask_sum(s) + v,
    decreases s.len(),
{
    let t = s.update(i, v);
    if i == s.len() - 1 {
        assert(t.drop_last() =~= s.drop_last());
    } else {
        assert(t.drop_last() =~= s.drop_last().update(i, v));
        lemma_mask_sum_update(s.drop_last(), i, v);
    }
}

proof fn lemma_mask_sum_refines(q: Seq<u8>, p: Seq<u8>)
    requires
        refines(q, p),
    ensures
        mask_sum(q) <= mask_sum(p),
    decreases q.len(),
{
    if q.len() > 0 {
        assert(refines(q.drop_last(), p.drop_last())) by {
            assert forall|i: int| 0 <= i < q.drop_last().len() implies #[trigger] subset(
                q.drop_last()[i],
                p.drop_last()[i],
            ) by {
                assert(subset(q[i], p[i]));
            }
        }
        lemma_mask_sum_refines(q.drop_last(), p.drop_last());
        assert(subset(q[q.len() - 1], p[p.len() - 1]));
        lemma_bit_ops(q.last(), p.last(), 0);
    }
}

/// The neighbours of a cell of the grid lie in the grid, apart from it.
proof fn lemma_neighbor(c: int, d: Direction)
    requires
        0 <= c < cells(),
    ensures
        neighbor(c, d) matches Some(n) ==> 0 <= n < cells() && n != c,
{
    lemma_fundamental_div_mod(c, MAP_SIZE as int);
}

/// Every refinement lies within the mask of every tile.
proof fn lemma_refines_trans(r: Seq<u8>, q: Seq<u8>, p: Seq<u8>)
    requires
        refines(r, q),
        refines(q, p),
    ensures
        refines(r, p),
{
    assert forall|i: int| 0 <= i < r.len() implies #[trigger] subset(r[i], p[i]) by {
        assert(subset(r[i], q[i]));
        assert(subset(q[i], p[i]));
        lemma_bit_ops(r[i], q[i], p[i]);
    }
}

/// Narrowing the neighbour on side `d` of cell `c` to the tiles that `c`
/// allows keeps what propagation knows, and makes `c` agree on that side.
proof fn lemma_constrain_step(
    start: Seq<u8>,
    p: Seq<u8>,
    pending: Seq<usize>,
    c: int,
    d: Direction,
    n: int,
    p2: Seq<u8>,
    pending2: Seq<usize>,
)
    requires
        p.len() == cells(),
        0 <= c < cells(),
        neighbor(c, d) == Some(n),
        nonzero(p),
        refines(p, start),
        holds_all_agreeing(p, start),
        forall|e: int|
            0 <= e < cells() && e != c && !pending.contains(e as usize) ==> #[trigger] consistent_at(
                p,
                e,
            ),
        p[n] & compat(p[c], d) != 0,
        p2 == p.update(n, p[n] & compat(p[c], d)),
        pending2 == if p[n] & compat(p[c], d) != p[n] {
            pending.push(n as usize).push(c as usize)
        } else {
            pending
        },
    ensures
        p2.len() == cells(),
        nonzero(p2),
        refines(p2, start),
        refines(p2, p),
        holds_all_agreeing(p2, start),
        forall|e: int|
            0 <= e < cells() && e != c && !pending2.contains(e as usize) ==> #[trigger] consistent_at(
                p2,
                e,
            ),
        p2[c] == p[c],
        agrees(p2, c, d),
        forall|d2: Direction| neighbor(c, d2) != Some(n) && #[trigger] agrees(p, c, d2) ==> agrees(p2, c, d2),
        p2[n] != p[n] ==> mask_sum(p2) < mask_sum(p),
{
    lemma_neighbor(c, d);
    let m = p[n] & compat(p[c], d);
    lemma_bit_ops(p[n], p[n], compat(p[c], d));
    assert(refines(p2, p)) by {
        assert forall|i: int| 0 <= i < p2.len() implies #[trigger] subset(p2[i], p[i]) by {
            lemma_bit_ops(p[i], p[i], 0);
        }
    }
    lemma_refines_trans(p2, p, start);
    assert(holds_all_agreeing(p2, start)) by {
        assert forall|q: Seq<u8>| #[trigger] refines(q, start) && consistent(q) implies refines(q, p2) by {
            assert(refines(q, p));
            assert(consistent_at(q, c));
            assert(agrees(q, c, d));
            assert(subset(q[c], p[c]));
            lemma_compat_monotonic(q[c], p[c], d);
            assert(subset(q[n], p[n]));
            lemma_bit_ops(q[n], compat(q[c], d), compat(p[c], d));
            lemma_bit_ops(q[n], p[n], compat(p[c], d));
            assert forall|i: int| 0 <= i < q.len() implies #[trigger] subset(q[i], p2[i]) by {
                assert(subset(q[i], p[i]));
            }
        }
    }
    lemma_bit_ops(m, p[n], compat(p[c], d));
    assert(agrees(p2, c, d));
    assert forall|e: int|
        0 <= e < cells() && e != c && !pending2.contains(e as usize) implies #[trigger] consistent_at(
        p2,
        e,
    ) by {
        if m != p[n] {
            assert(pending2 == pending.push(n as usize).push(c as usize));
            assert(pending2[pending.len() as int] == n as usize);
            assert(e != n);
            assert forall|i: int| 0 <= i < pending.len() implies pending2[i] == pending[i] by {}
            if pending.contains(e as usize) {
                let k = choose|k: int| 0 <= k < pending.len() && pending[k] == e as usize;
                assert(pending2[k] == e as usize);
            }
        }
        assert(consistent_at(p, e));
        lemma_neighbor(e, Direction::North);
        lemma_neighbor(e, Direction::South);
        lemma_neighbor(e, Direction::East);
        lemma_neighbor(e, Direction::West);
        assert forall|d2: Direction| #[trigger] agrees(p, e, d2) implies agrees(p2, e, d2) by {
            if let Some(f) = neighbor(e, d2) {
                assert(subset(p2[f], p[f]));
                lemma_bit_ops(p2[f], p[f], compat(p[e], d2));
            }
        }
        assert(agrees(p, e, Direction::North));
        assert(agrees(p, e, Direction::South));
        assert(agrees(p, e, Direction::East));
        assert(agrees(p, e, Direction::West));
    }
    assert forall|d2: Direction| neighbor(c, d2) != Some(n) && #[trigger] agrees(p, c, d2) implies agrees(
        p2,
        c,
        d2,
    ) by {
        lemma_neighbor(c, d2);
    }
    if m != p[n] {
        lemma_mask_sum_update(p, n, m);
    }
}

/// The index of the cell in column `x` of row `y`.
fn xy_to_index(x: usize, y: usize) -> (r: usize)
    requires
        x < MAP_SIZE,
        y < MAP_SIZE,
    ensures
        r == y * MAP_SIZE + x,
{
    y * MAP_SIZE + x
}

/// Narrows the cell `neighbor_index` on side `direction` of cell
/// `source_index`, which holds `source_mask`, to the tiles that it allows;
/// where that rules out a tile, both cells are queued to be checked again.
/// `false` where no tile would be left.
fn constrain_neighbor(
    possibilities: &mut Vec<u8>,
    source_index: usize,
    source_mask: u8,
    neighbor_index: usize,
    direction: Direction,
    queue: &mut VecDeque<usize>,
) -> (r: bool)
    requires
        neighbor_index < old(possibilities)@.len(),
    ensures
        r == (old(possibilities)@[neighbor_index as int] & compat(source_mask, direction) != 0),
        final(possibilities)@ == if r {
            old(possibilities)@.update(
                neighbor_index as int,
                old(possibilities)@[neighbor_index as int] & compat(source_mask, direction),
            )
        } else {
            old(possibilities)@
        },
        final(queue)@ == if r && old(possibilities)@[neighbor_index as int] & compat(
            source_mask,
            direction,
        ) != old(possibilities)@[neighbor_index as int] {
            old(queue)@.push(neighbor_index).push(source_index)
        } else {
            old(queue)@
        },
{
    let allowed_neighbor_mask = compatible_neighbor_mask(source_mask, direction);
    let previous_neighbor_mask = possibilities[neighbor_index];
    let updated_neighbor_mask = previous_neighbor_mask & allowed_neighbor_mask;
    if updated_neighbor_mask == 0 {
        return false;
    }
    if updated_neighbor_mask != previous_neighbor_mask {
        possibilities.set(neighbor_index, updated_neighbor_mask);
        queue.push_back(neighbor_index);
    } else {
        assert(possibilities@ =~= possibilities@.update(neighbor_index as int, updated_neighbor_mask));
    }
    // Checking the source again lets narrowing travel both ways.
    if updated_neighbor_mask != previous_neighbor_mask {
        queue.push_back(source_index);
    }
    true
}

/// Where narrowing a neighbour would leave it no tile, no refinement of
/// `start` whose cells agree leaves every cell a tile.
proof fn lemma_unsolvable(start: Seq<u8>, p: Seq<u8>, c: int, d: Direction, n: int)
    requires
        p.len() == cells(),
        0 <= c < cells(),
        neighbor(c, d) == Some(n),
        holds_all_agreeing(p, start),
        p[n] & compat(p[c], d) == 0,
    ensures
        !solvable(start),
{
    lemma_neighbor(c, d);
    assert forall|q: Seq<u8>| refines(q, start) && consistent(q) implies !nonzero(q) by {
        assert(refines(q, p));
        assert(consistent_at(q, c));
        assert(subset(q[c], p[c]));
        assert(subset(q[n], p[n]));
        lemma_compat_monotonic(q[c], p[c], d);
        lemma_bit_ops(q[n], compat(q[c], d), compat(p[c], d));
        lemma_bit_ops(q[n], p[n], compat(p[c], d));
        lemma_bit_ops(q[n], 0, 0);
        assert(q[n] == 0);
    }
}

/// Cells that left the queue, and were not queued again, agree with their
/// neighbours.
proof fn lemma_popped(queue: Seq<usize>, p: Seq<u8>)
    requires
        queue.len() > 0,
        forall|c: int| 0 <= c < cells() && !queue.contains(c as usize) ==> #[trigger] consistent_at(p, c),
    ensures
        forall|c: int|
            0 <= c < cells() && c != queue[0] && !queue.subrange(1, queue.len() as int).contains(c as usize)
                ==> #[trigger] consistent_at(p, c),
{
    let rest = queue.subrange(1, queue.len() as int);
    assert forall|c: int|
        0 <= c < cells() && c != queue[0] && !rest.contains(c as usize) implies #[trigger] consistent_at(p, c) by {
        if queue.contains(c as usize) {
            let k = choose|k: int| 0 <= k < queue.len() && queue[k] == c as usize;
            assert(k != 0);
            assert(rest[k - 1] == c as usize);
        }
    }
}

/// What propagation knows of the cells `p`, started from `start`, while the
/// cell `c` is being checked and the cells of `pending` wait: every cell
/// keeps a tile, lies within its mask in `start` and holds every refinement whose
/// cells agree, and every other cell agrees with its neighbours.
spec fn propagating(start: Seq<u8>, p: Seq<u8>, pending: Seq<usize>, c: int) -> bool {
    &&& p.len() == cells()
    &&& 0 <= c < cells()
    &&& nonzero(p)
    &&& refines(p, start)
    &&& holds_all_agreeing(p, start)
    &&& forall|i: int| 0 <= i < pending.len() ==> pending[i] < cells()
    &&& forall|e: int|
        0 <= e < cells() && e != c && !pending.contains(e as usize) ==> #[trigger] consistent_at(p, e)
}

/// Narrows the neighbour on side `direction` of cell `index` as
/// [`constrain_neighbor`] does, keeping what propagation knows.
fn narrow_neighbor(
    possibilities: &mut Vec<u8>,
    queue: &mut VecDeque<usize>,
    index: usize,
    source_mask: u8,
    neighbor_index: usize,
    direction: Direction,
    Ghost(start): Ghost<Seq<u8>>,
) -> (r: bool)
    requires
        propagating(start, old(possibilities)@, old(queue)@, index as int),
        neighbor(index as int, direction) == Some(neighbor_index as int),
        source_mask == old(possibilities)@[index as int],
    ensures
        final(possibilities)@.len() == old(possibilities)@.len(),
        !r ==> !solvable(start),
        r ==> propagating(start, final(possibilities)@, final(queue)@, index as int),
        r ==> final(possibilities)@[index as int] == source_mask,
        r ==> agrees(final(possibilities)@, index as int, direction),
        r ==> forall|d2: Direction|
            neighbor(index as int, d2) != Some(neighbor_index as int) && #[trigger] agrees(
                old(possibilities)@,
                index as int,
                d2,
            ) ==> agrees(final(possibilities)@, index as int, d2),
        r ==> 9 * mask_sum(final(possibilities)@) + final(queue)@.len() <= 9 * mask_sum(
            old(possibilities)@,
        ) + old(queue)@.len(),
{
    let ghost p = possibilities@;
    let ghost pending = queue@;
    proof {
        lemma_neighbor(index as int, direction);
    }
    if !constrain_neighbor(possibilities, index, source_mask, neighbor_index, direction, queue) {
        proof {
            lemma_unsolvable(start, p, index as int, direction, neighbor_index as int);
        }
        return false;
    }
    proof {
        lemma_constrain_step(
            start,
            p,
            pending,
            index as int,
            direction,
            neighbor_index as int,
            possibilities@,
            queue@,
        );
        if possibilities@[neighbor_index as int] == p[neighbor_index as int] {
            assert(possibilities@ =~= p);
        }
        assert forall|i: int| 0 <= i < queue@.len() implies queue@[i] < cells() by {
            if i >= pending.len() {
                lemma_neighbor(index as int, direction);
            }
        }
    }
    true
}

/// Narrows the cells until every cell agrees with its neighbours: checks
/// the cells of `queue` in turn against their four neighbours, queueing
/// again each neighbour that loses a tile, and the cell itself. `false`
/// where some cell would be left no tile. Given that the cells out of the
/// queue agree already, this leaves the greatest refinement whose cells
/// agree, and fails where there is none without an empty cell.
fn propagate_with_queue(possibilities: &mut Vec<u8>, queue: &mut VecDeque<usize>) -> (r: bool)
    requires
        old(possibilities)@.len() == cells(),
        nonzero(old(possibilities)@),
        forall|i: int| 0 <= i < old(queue)@.len() ==> old(queue)@[i] < cells(),
        forall|c: int|
            0 <= c < cells() && !old(queue)@.contains(c as usize) ==> #[trigger] consistent_at(
                old(possibilities)@,
                c,
            ),
    ensures
        r == solvable(old(possibilities)@),
        r ==> greatest_consistent(final(possibilities)@, old(possibilities)@),
        final(possibilities)@.len() == cells(),
{
    let ghost old0 = possibilities@;
    proof {
        assert forall|i: int| 0 <= i < old0.len() implies #[trigger] subset(old0[i], old0[i]) by {
            lemma_bit_ops(old0[i], 0, 0);
        }
    }
    loop
        invariant
            old0 == old(possibilities)@,
            possibilities@.len() == cells(),
            nonzero(possibilities@),
            refines(possibilities@, old0),
            holds_all_agreeing(possibilities@, old0),
            forall|i: int| 0 <= i < queue@.len() ==> queue@[i] < cells(),
            forall|c: int|
                0 <= c < cells() && !queue@.contains(c as usize) ==> #[trigger] consistent_at(
                    possibilities@,
                    c,
                ),
        decreases 9 * mask_sum(possibilities@) + queue@.len(),
    {
        let ghost measure = 9 * mask_sum(possibilities@) + queue@.len();
        let ghost before = queue@;
        let next = queue.pop_front();
        let index = match next {
            None => {
                assert(consistent(possibilities@));
                assert(refines(possibilities@, old0) && consistent(possibilities@) && nonzero(
                    possibilities@,
                ));
                assert(solvable(old0));
                return true;
            },
            Some(i) => i,
        };
        proof {
            lemma_popped(before, possibilities@);
            lemma_fundamental_div_mod(index as int, MAP_SIZE as int);
        }
        let ghost c = index as int;
        let x = index % MAP_SIZE;
        let y = index / MAP_SIZE;
        let source_mask = possibilities[index];
        if source_mask == 0 {
            return false;
        }
        assert(propagating(old0, possibilities@, queue@, c));
        if y > 0 {
            let neighbor_index = xy_to_index(x, y - 1);
            if !narrow_neighbor(
                possibilities,
                queue,
                index,
                source_mask,
                neighbor_index,
                Direction::North,
                Ghost(old0),
            ) {
                return false;
            }
        }
        assert(agrees(possibilities@, c, Direction::North));
        if y + 1 < MAP_SIZE {
            let neighbor_index = xy_to_index(x, y + 1);
            if !narrow_neighbor(
                possibilities,
                queue,
                index,
                source_mask,
                neighbor_index,
                Direction::South,
                Ghost(old0),
            ) {
                return false;
            }
        }
        assert(agrees(possibilities@, c, Direction::North));
        assert(agrees(possibilities@, c, Direction::South));
        if x + 1 < MAP_SIZE {
            let neighbor_index = xy_to_index(x + 1, y);
            if !narrow_neighbor(
                possibilities,
                queue,
                index,
                source_mask,
                neighbor_index,
                Direction::East,
                Ghost(old0),
            ) {
                return false;
            }
        }
        assert(agrees(possibilities@, c, Direction::North));
        assert(agrees(possibilities@, c, Direction::South));
        assert(agrees(possibilities@, c, Direction::East));
        if x > 0 {
            let neighbor_index = xy_to_index(x - 1, y);
            if !narrow_neighbor(
                possibilities,
                queue,
                index,
                source_mask,
                neighbor_index,
                Direction::West,
                Ghost(old0),
            ) {
                return false;
            }
        }
        assert(consistent_at(possibilities@, c));
    }
}

/// Cells `c` other than `i` still agree once cell `i` loses tiles.
proof fn lemma_shrink_cell(p: Seq<u8>, i: int, v: u8)
    requires
        p.len() == cells(),
        0 <= i < cells(),
        subset(v, p[i]),
        forall|c: int| 0 <= c < cells() && c != i ==> #[trigger] consistent_at(p, c),
    ensures
        forall|c: int| 0 <= c < cells() && c != i ==> #[trigger] consistent_at(p.update(i, v), c),
{
    let p2 = p.update(i, v);
    assert forall|c: int| 0 <= c < cells() && c != i implies #[trigger] consistent_at(p2, c) by {
        assert(consistent_at(p, c));
        lemma_neighbor(c, Direction::North);
        lemma_neighbor(c, Direction::South);
        lemma_neighbor(c, Direction::East);
        lemma_neighbor(c, Direction::West);
        assert forall|d: Direction| #[trigger] agrees(p, c, d) implies agrees(p2, c, d) by {
            if let Some(f) = neighbor(c, d) {
                lemma_bit_ops(p[f], p[f], 0);
                lemma_bit_ops(p2[f], p[f], compat(p[c], d));
            }
        }
        assert(agrees(p, c, Direction::North));
        assert(agrees(p, c, Direction::South));
        assert(agrees(p, c, Direction::East));
        assert(agrees(p, c, Direction::West));
    }
}

/// Narrows the cells from cell `start_index`, the only one that may
/// disagree with its neighbours; see [`propagate_with_queue`].
fn propagate_constraints(possibilities: &mut Vec<u8>, start_index: usize) -> (r: bool)
    requires
        old(possibilities)@.len() == cells(),
        start_index < cells(),
        nonzero(old(possibilities)@),
        forall|c: int|
            0 <= c < cells() && c != start_index ==> #[trigger] consistent_at(old(possibilities)@, c),
    ensures
        r == solvable(old(possibilities)@),
        r ==> greatest_consistent(final(possibilities)@, old(possibilities)@),
        final(possibilities)@.len() == cells(),
{
    let mut queue: VecDeque<usize> = VecDeque::new();
    queue.push_back(start_index);
    assert forall|c: int| 0 <= c < cells() && !queue@.contains(c as usize) implies #[trigger] consistent_at(
        possibilities@,
        c,
    ) by {
        if c == start_index {
            assert(queue@[0] == start_index);
        }
    }
    propagate_with_queue(possibilities, &mut queue)
}

/// Narrows the cells until all of them agree; see [`propagate_with_queue`].
fn propagate_all_constraints(possibilities: &mut Vec<u8>) -> (r: bool)
    requires
        old(possibilities)@.len() == cells(),
        nonzero(old(possibilities)@),
    ensures
        r == solvable(old(possibilities)@),
        r ==> greatest_consistent(final(possibilities)@, old(possibilities)@),
        final(possibilities)@.len() == cells(),
{
    let mut queue: VecDeque<usize> = VecDeque::new();
    let mut i: usize = 0;
    while i < possibilities.len()
        invariant
            possibilities@.len() == cells(),
            i <= cells(),
            queue@ == Seq::new(i as nat, |k: int| k as usize),
        decreases cells() - i,
    {
        queue.push_back(i);
        assert(queue@ =~= Seq::new((i + 1) as nat, |k: int| k as usize));
        i = i + 1;
    }
    assert forall|c: int| 0 <= c < cells() && !queue@.contains(c as usize) implies #[trigger] consistent_at(
        possibilities@,
        c,
    ) by {
        assert(queue@[c] == c as usize);
    }
    propagate_with_queue(possibilities, &mut queue)
}

/// The number of bits set in a mask.
pub open spec fn bit_count(m: u8) -> nat
    decreases m,
{
    if m == 0 {
        0
    } else {
        (m % 2) as nat + bit_count(m / 2)
    }
}

/// The number of bits set in `m`.
fn count_ones(m: u8) -> (r: u32)
    ensures
        r == bit_count(m),
{
    let mut count: u32 = 0;
    let mut rest: u8 = m;
    proof {
        lemma_bit_count_bound(m);
    }
    while rest != 0
        invariant
            count + bit_count(rest) == bit_count(m),
            bit_count(m) <= 255,
        decreases rest,
    {
        count = count + (rest % 2) as u32;
        rest = rest / 2;
    }
    count
}

/// The tile whose mask is `m`, if there is one.
pub open spec fn single_tile(m: u8) -> Option<MacroTile> {
    if m == 1 {
        Some(MacroTile::Outside)
    } else if m == 2 {
        Some(MacroTile::Inside)
    } else if m == 4 {
        Some(MacroTile::CellsNorth)
    } else if m == 8 {
        Some(MacroTile::CellsSouth)
    } else if m == 16 {
        Some(MacroTile::CellsEast)
    } else if m == 32 {
        Some(MacroTile::CellsWest)
    } else {
        None
    }
}

/// The mask of a single tile has one bit set, and names that tile.
proof fn lemma_single_tile(t: MacroTile)
    ensures
        bit_count(bit(t)) == 1,
        single_tile(bit(t)) == Some(t),
{
    reveal_with_fuel(bit_count, 7);
}

/// The tile whose mask is `mask`, if it holds exactly one tile.
fn tile_from_single_mask(mask: u8) -> (r: Option<MacroTile>)
    ensures
        r == single_tile(mask),
{
    if count_ones(mask) != 1 {
        proof {
            lemma_single_tile(MacroTile::Outside);
            lemma_single_tile(MacroTile::Inside);
            lemma_single_tile(MacroTile::CellsNorth);
            lemma_single_tile(MacroTile::CellsSouth);
            lemma_single_tile(MacroTile::CellsEast);
            lemma_single_tile(MacroTile::CellsWest);
        }
        return None;
    }
    if mask == 1 {
        Some(MacroTile::Outside)
    } else if mask == 2 {
        Some(MacroTile::Inside)
    } else if mask == 4 {
        Some(MacroTile::CellsNorth)
    } else if mask == 8 {
        Some(MacroTile::CellsSouth)
    } else if mask == 16 {
        Some(MacroTile::CellsEast)
    } else if mask == 32 {
        Some(MacroTile::CellsWest)
    } else {
        None
    }
}

/// The fewest tiles, above one, that a cell among the first `k` holds;
/// `u32::MAX` where none holds more than one.
pub open spec fn min_entropy(s: Seq<u8>, k: nat) -> nat
    decreases k,
{
    if k == 0 {
        u32::MAX as nat
    } else {
        let m = min_entropy(s, (k - 1) as nat);
        let e = bit_count(s[k - 1]);
        if e > 1 && e < m {
            e
        } else {
            m
        }
    }
}

/// The cells among the first `k` that hold more than one tile, `m` of
/// them, in order.
pub open spec fn entropy_candidates(s: Seq<u8>, k: nat, m: nat) -> Seq<usize>
    decreases k,
{
    if k == 0 {
        Seq::empty()
    } else {
        let rest = entropy_candidates(s, (k - 1) as nat, m);
        let e = bit_count(s[k - 1]);
        if e > 1 && e == m {
            rest.push((k - 1) as usize)
        } else {
            rest
        }
    }
}

proof fn lemma_no_candidates_below(s: Seq<u8>, k: nat, m: nat)
    requires
        k <= s.len(),
        m < min_entropy(s, k),
    ensures
        entropy_candidates(s, k, m) == Seq::<usize>::empty(),
    decreases k,
{
    if k > 0 {
        lemma_no_candidates_below(s, (k - 1) as nat, m);
    }
}

/// The cells that hold the fewest tiles, above one, in order.
fn lowest_entropy_candidates(possibilities: &Vec<u8>) -> (r: Vec<usize>)
    ensures
        r@ == entropy_candidates(
            possibilities@,
            possibilities@.len(),
            min_entropy(possibilities@, possibilities@.len()),
        ),
{
    let mut best_entropy: u32 = u32::MAX;
    let mut candidates: Vec<usize> = Vec::new();
    let mut index: usize = 0;
    while index < possibilities.len()
        invariant
            index <= possibilities@.len(),
            best_entropy == min_entropy(possibilities@, index as nat),
            candidates@ == entropy_candidates(possibilities@, index as nat, best_entropy as nat),
        decreases possibilities@.len() - index,
    {
        let entropy = count_ones(possibilities[index]);
        if entropy > 1 {
            if entropy < best_entropy {
                proof {
                    lemma_no_candidates_below(possibilities@, index as nat, entropy as nat);
                }
                best_entropy = entropy;
                candidates.clear();
                candidates.push(index);
                assert(candidates@ =~= Seq::<usize>::empty().push(index));
            } else if entropy == best_entropy {
                candidates.push(index);
            }
        }
        index = index + 1;
    }
    candidates
}

/// Each candidate holds more than one tile.
proof fn lemma_candidates(s: Seq<u8>, k: nat, m: nat, j: int)
    requires
        k <= s.len(),
        k <= usize::MAX,
        0 <= j < entropy_candidates(s, k, m).len(),
    ensures
        entropy_candidates(s, k, m)[j] < k,
        bit_count(s[entropy_candidates(s, k, m)[j] as int]) > 1,
    decreases k,
{
    let rest = entropy_candidates(s, (k - 1) as nat, m);
    if j < rest.len() {
        lemma_candidates(s, (k - 1) as nat, m, j);
    }
}

/// Declares the thread's random number generator, used here as an opaque
/// value.
#[verifier::external_type_specification]
#[verifier::external_body]
pub struct ExThreadRng(ThreadRng);

/// Calls `rand::rng`, which hands out the generator of the current thread,
/// seeded from the system on first use; the contract claims nothing of it.
#[verifier::external_body]
fn thread_rng() -> ThreadRng {
    rand::rng()
}

/// Calls `RngExt::random_range` on the range `0..n`: the contract claims
/// that the value lies in the range, as its documentation states; which
/// value comes out is left open.
#[verifier::external_body]
fn random_below(random: &mut ThreadRng, n: usize) -> (r: usize)
    requires
        n > 0,
    ensures
        r < n,
{
    random.random_range(0..n)
}

/// A cell, chosen at random among those that hold the fewest tiles above
/// one; `None` where no cell holds more than one.
fn pick_lowest_entropy_index(possibilities: &Vec<u8>, random: &mut ThreadRng) -> (r: Option<usize>)
    ensures
        r is None <==> entropy_candidates(
            possibilities@,
            possibilities@.len(),
            min_entropy(possibilities@, possibilities@.len()),
        ).len() == 0,
        r matches Some(i) ==> entropy_candidates(
            possibilities@,
            possibilities@.len(),
            min_entropy(possibilities@, possibilities@.len()),
        ).contains(i),
        r matches Some(i) ==> i < possibilities@.len() && bit_count(possibilities@[i as int]) > 1,
{
    let candidates = lowest_entropy_candidates(possibilities);
    let n = possibilities.len();
    if candidates.len() == 0 {
        None
    } else {
        let k = random_below(random, candidates.len());
        proof {
            lemma_candidates(
                possibilities@,
                possibilities@.len(),
                min_entropy(possibilities@, possibilities@.len()),
                k as int,
            );
        }
        Some(candidates[k])
    }
}

/// A tile, chosen at random among those that the mask holds; `None` where
/// it holds none.
fn random_tile_from_mask(mask: u8, random: &mut ThreadRng) -> (r: Option<MacroTile>)
    ensures
        r is None <==> tiles_in(mask, 6).len() == 0,
        r matches Some(t) ==> tiles_in(mask, 6).contains(t) && has(mask, t),
{
    let candidates = tiles_from_mask(mask);
    if candidates.len() == 0 {
        None
    } else {
        let k = random_below(random, candidates.len());
        let t = candidates[k];
        proof {
            lemma_tiles_in(mask, 6, t);
            assert(candidates@.contains(t));
        }
        Some(t)
    }
}

/// The rows of a grid of macro tiles.
pub open spec fn grid_view(g: Seq<Vec<MacroTile>>) -> Seq<Seq<MacroTile>> {
    g.map_values(|row: Vec<MacroTile>| row@)
}

/// Whether a grid has `MAP_SIZE` rows of `MAP_SIZE` cells.
pub open spec fn shaped(g: Seq<Seq<MacroTile>>) -> bool {
    &&& g.len() == MAP_SIZE
    &&& forall|y: int| 0 <= y < MAP_SIZE ==> #[trigger] g[y].len() == MAP_SIZE
}

/// Whether the tile in row `y`, column `x` allows each of its neighbours;
/// north is the row before.
pub open spec fn tile_agrees(g: Seq<Seq<MacroTile>>, y: int, x: int) -> bool {
    &&& y > 0 ==> allowed(g[y][x], Direction::North, g[y - 1][x])
    &&& y + 1 < MAP_SIZE ==> allowed(g[y][x], Direction::South, g[y + 1][x])
    &&& x + 1 < MAP_SIZE ==> allowed(g[y][x], Direction::East, g[y][x + 1])
    &&& x > 0 ==> allowed(g[y][x], Direction::West, g[y][x - 1])
}

/// Whether every tile of the grid allows each of its neighbours.
pub open spec fn respects(g: Seq<Seq<MacroTile>>) -> bool {
    forall|y: int, x: int|
        0 <= y < MAP_SIZE && 0 <= x < MAP_SIZE ==> #[trigger] tile_agrees(g, y, x)
}

/// Whether every cell holds exactly one tile.
pub open spec fn all_single(p: Seq<u8>) -> bool {
    forall|i: int| 0 <= i < p.len() ==> #[trigger] single_tile(p[i]) is Some
}

/// The grid of the tiles that the cells hold, one each.
pub open spec fn grid_of(p: Seq<u8>) -> Seq<Seq<MacroTile>> {
    Seq::new(
        MAP_SIZE as nat,
        |y: int| Seq::new(MAP_SIZE as nat, |x: int| single_tile(p[y * MAP_SIZE + x]).unwrap()),
    )
}

/// Cells that agree and hold one tile each make a grid whose tiles allow
/// their neighbours.
proof fn lemma_respects(p: Seq<u8>)
    requires
        consistent(p),
        all_single(p),
    ensures
        shaped(grid_of(p)),
        respects(grid_of(p)),
{
    let g = grid_of(p);
    assert forall|y: int, x: int| 0 <= y < MAP_SIZE && 0 <= x < MAP_SIZE implies #[trigger] tile_agrees(
        g,
        y,
        x,
    ) by {
        let c = y * MAP_SIZE + x;
        lemma_fundamental_div_mod_converse(c, MAP_SIZE as int, y, x);
        assert(0 <= c < cells()) by (nonlinear_arith)
            requires
                0 <= y < 126,
                0 <= x < 126,
                c == y * 126 + x,
        ;
        assert(consistent_at(p, c));
        assert(single_tile(p[c]) is Some);
        assert(p[c] == bit(g[y][x]));
        if y > 0 {
            assert(single_tile(p[c - MAP_SIZE]) is Some);
            assert(c - MAP_SIZE == (y - 1) * MAP_SIZE + x);
            assert(p[c - MAP_SIZE] == bit(g[y - 1][x]));
            lemma_compat_single(g[y][x], g[y - 1][x], Direction::North);
        }
        if y + 1 < MAP_SIZE {
            assert(c + MAP_SIZE < cells()) by (nonlinear_arith)
                requires
                    y + 1 < 126,
                    0 <= x < 126,
                    c == y * 126 + x,
            ;
            assert(single_tile(p[c + MAP_SIZE]) is Some);
            assert(c + MAP_SIZE == (y + 1) * MAP_SIZE + x);
            assert(p[c + MAP_SIZE] == bit(g[y + 1][x]));
            lemma_compat_single(g[y][x], g[y + 1][x], Direction::South);
        }
        if x + 1 < MAP_SIZE {
            assert(single_tile(p[c + 1]) is Some);
            assert(p[c + 1] == bit(g[y][x + 1]));
            lemma_compat_single(g[y][x], g[y][x + 1], Direction::East);
        }
        if x > 0 {
            assert(single_tile(p[c - 1]) is Some);
            assert(p[c - 1] == bit(g[y][x - 1]));
            lemma_compat_single(g[y][x], g[y][x - 1], Direction::West);
        }
    }
}

/// The grid of the tiles that the cells hold, where each cell holds exactly
/// one tile.
fn possibilities_to_grid(possibilities: Vec<u8>) -> (r: Option<Vec<Vec<MacroTile>>>)
    requires
        possibilities@.len() == cells(),
    ensures
        r is Some <==> all_single(possibilities@),
        r matches Some(g) ==> grid_view(g@) == grid_of(possibilities@),
{
    let ghost target = grid_of(possibilities@);
    let mut rows: Vec<Vec<MacroTile>> = Vec::new();
    let mut y: usize = 0;
    while y < MAP_SIZE
        invariant
            y <= MAP_SIZE,
            possibilities@.len() == cells(),
            target == grid_of(possibilities@),
            grid_view(rows@) == target.take(y as int),
            forall|i: int| 0 <= i < y * MAP_SIZE ==> #[trigger] single_tile(possibilities@[i]) is Some,
        decreases MAP_SIZE - y,
    {
        let mut row: Vec<MacroTile> = Vec::new();
        let mut x: usize = 0;
        while x < MAP_SIZE
            invariant
                y < MAP_SIZE,
                x <= MAP_SIZE,
                possibilities@.len() == cells(),
                target == grid_of(possibilities@),
                row@ == target[y as int].take(x as int),
                forall|i: int| 0 <= i < y * MAP_SIZE + x ==> #[trigger] single_tile(possibilities@[i]) is Some,
            decreases MAP_SIZE - x,
        {
            let index = xy_to_index(x, y);
            match tile_from_single_mask(possibilities[index]) {
                Some(t) => {
                    row.push(t);
                    assert(row@ =~= target[y as int].take(x + 1));
                },
                None => {
                    return None;
                },
            }
            x = x + 1;
        }
        assert(row@ =~= target[y as int]);
        let ghost before = grid_view(rows@);
        rows.push(row);
        assert(grid_view(rows@) =~= before.push(target[y as int]));
        assert(grid_view(rows@) =~= target.take(y + 1));
        y = y + 1;
    }
    assert(grid_view(rows@) =~= target);
    Some(rows)
}

/// Whether every mask holds no bit beyond those of the six tiles.
pub open spec fn six_bits(p: Seq<u8>) -> bool {
    forall|i: int| 0 <= i < p.len() ==> #[trigger] p[i] & 0xc0u8 == 0
}

/// Whether some refinement of `start` whose cells agree, none empty, has a
/// cell that, fixed to one of its tiles, leaves no such refinement.
pub open spec fn dead_end(start: Seq<u8>) -> bool {
    exists|p: Seq<u8>, i: int, t: MacroTile|
        refines(p, start) && consistent(p) && nonzero(p) && 0 <= i < p.len() && has(p[i], t)
            && !#[trigger] solvable(p.update(i, bit(t)))
}

/// A mask within one of six bits has six bits; a mask of six bits that is
/// not empty holds one of the six tiles.
proof fn lemma_six_bits(q: u8, p: u8)
    by (bit_vector)
    ensures
        q & !p == 0 && p & 0xc0u8 == 0 ==> q & 0xc0u8 == 0,
        p != 0 && p & 0xc0u8 == 0 ==> p & 1u8 != 0 || p & 2u8 != 0 || p & 4u8 != 0 || p & 8u8
            != 0 || p & 16u8 != 0 || p & 32u8 != 0,
{
}

/// Fixes the cells one by one, each time choosing at random a cell among
/// those with the fewest tiles above one and a tile among its own, and
/// narrowing the rest to agree; `false` where a choice leaves some cell no
/// tile.
fn collapse(possibilities: &mut Vec<u8>, random: &mut ThreadRng) -> (r: bool)
    requires
        old(possibilities)@.len() == cells(),
        nonzero(old(possibilities)@),
        consistent(old(possibilities)@),
        six_bits(old(possibilities)@),
    ensures
        !r ==> dead_end(old(possibilities)@),
        final(possibilities)@.len() == cells(),
        r ==> consistent(final(possibilities)@),
        r ==> nonzero(final(possibilities)@),
        r ==> refines(final(possibilities)@, old(possibilities)@),
        r ==> forall|i: int|
            0 <= i < cells() ==> #[trigger] bit_count(final(possibilities)@[i]) <= 1,
        (forall|i: int| 0 <= i < cells() ==> #[trigger] bit_count(old(possibilities)@[i]) <= 1)
            ==> r && final(possibilities)@ == old(possibilities)@,
{
    let ghost start = possibilities@;
    proof {
        assert forall|i: int| 0 <= i < start.len() implies #[trigger] subset(start[i], start[i]) by {
            lemma_bit_ops(start[i], 0, 0);
        }
    }
    loop
        invariant
            start == old(possibilities)@,
            possibilities@.len() == cells(),
            nonzero(possibilities@),
            consistent(possibilities@),
            refines(possibilities@, start),
            (forall|i: int| 0 <= i < cells() ==> #[trigger] bit_count(start[i]) <= 1)
                ==> possibilities@ == start,
            six_bits(start),
        decreases mask_sum(possibilities@),
    {
        let index = match pick_lowest_entropy_index(possibilities, random) {
            None => {
                proof {
                    let s = possibilities@;
                    assert forall|i: int| 0 <= i < cells() implies #[trigger] bit_count(s[i]) <= 1 by {
                        if bit_count(s[i]) > 1 {
                            lemma_min_attained(s, s.len(), i);
                            let j = choose|j: int|
                                0 <= j < s.len() && bit_count(s[j]) > 1 && bit_count(s[j])
                                    == min_entropy(s, s.len());
                            lemma_candidates_nonempty(s, s.len(), min_entropy(s, s.len()), j);
                        }
                    }
                }
                return true;
            },
            Some(i) => i,
        };
        assert(bit_count(possibilities@[index as int]) > 1);
        let tile_mask = possibilities[index];
        proof {
            assert(subset(possibilities@[index as int], start[index as int]));
            lemma_six_bits(tile_mask, start[index as int]);
            lemma_six_bits(tile_mask, tile_mask);
            lemma_tiles_in(tile_mask, 6, MacroTile::Outside);
            lemma_tiles_in(tile_mask, 6, MacroTile::Inside);
            lemma_tiles_in(tile_mask, 6, MacroTile::CellsNorth);
            lemma_tiles_in(tile_mask, 6, MacroTile::CellsSouth);
            lemma_tiles_in(tile_mask, 6, MacroTile::CellsEast);
            lemma_tiles_in(tile_mask, 6, MacroTile::CellsWest);
            if has(tile_mask, MacroTile::Outside) {
                assert(all_tiles()[0] == MacroTile::Outside);
            } else if has(tile_mask, MacroTile::Inside) {
                assert(all_tiles()[1] == MacroTile::Inside);
            } else if has(tile_mask, MacroTile::CellsNorth) {
                assert(all_tiles()[2] == MacroTile::CellsNorth);
            } else if has(tile_mask, MacroTile::CellsSouth) {
                assert(all_tiles()[3] == MacroTile::CellsSouth);
            } else if has(tile_mask, MacroTile::CellsEast) {
                assert(all_tiles()[4] == MacroTile::CellsEast);
            } else {
                assert(all_tiles()[5] == MacroTile::CellsWest);
            }
            assert(tiles_in(tile_mask, 6).len() > 0);
        }
        let selected_tile = match random_tile_from_mask(tile_mask, random) {
            Some(t) => t,
            None => {
                return false;
            },
        };
        let ghost p = possibilities@;
        let single = mask_for_tile(selected_tile);
        proof {
            lemma_single_tile(selected_tile);
            lemma_has_subset(tile_mask, selected_tile);
            lemma_bit_ops(single, tile_mask, 0);
            lemma_has_bit(selected_tile, selected_tile);
            lemma_shrink_cell(p, index as int, single);
            lemma_mask_sum_update(p, index as int, single);
        }
        possibilities.set(index, single);
        assert(nonzero(possibilities@));
        if !propagate_constraints(possibilities, index) {
            proof {
                assert(!solvable(p.update(index as int, bit(selected_tile))));
            }
            return false;
        }
        proof {
            lemma_mask_sum_refines(possibilities@, p.update(index as int, single));
            assert(refines(p.update(index as int, single), p)) by {
                assert forall|i: int| 0 <= i < p.len() implies #[trigger] subset(
                    p.update(index as int, single)[i],
                    p[i],
                ) by {
                    lemma_bit_ops(p[i], 0, 0);
                }
            }
            lemma_refines_trans(possibilities@, p.update(index as int, single), p);
            lemma_refines_trans(possibilities@, p, start);
        }
    }
}

/// The number of bits set in a mask is at most the mask.
proof fn lemma_bit_count_bound(m: u8)
    ensures
        bit_count(m) <= m,
    decreases m,
{
    if m != 0 {
        lemma_bit_count_bound(m / 2);
    }
}

/// Where no cell among the first `k` holds more than one tile, the fewest
/// is the largest `u32`.
proof fn lemma_min_entropy_none(s: Seq<u8>, k: nat)
    requires
        k <= s.len(),
        forall|j: int| 0 <= j < k ==> #[trigger] bit_count(s[j]) <= 1,
    ensures
        min_entropy(s, k) == u32::MAX,
    decreases k,
{
    if k > 0 {
        lemma_min_entropy_none(s, (k - 1) as nat);
    }
}

/// Where some cell among the first `k` holds more than one tile, some cell
/// holds the fewest.
proof fn lemma_min_attained(s: Seq<u8>, k: nat, j: int)
    requires
        k <= s.len(),
        0 <= j < k,
        bit_count(s[j]) > 1,
    ensures
        exists|j2: int| 0 <= j2 < k && bit_count(s[j2]) > 1 && bit_count(s[j2]) == min_entropy(s, k),
    decreases k,
{
    let m = min_entropy(s, (k - 1) as nat);
    let e = bit_count(s[k - 1]);
    if e > 1 && e < m {
        assert(bit_count(s[k - 1]) == min_entropy(s, k));
    } else if j < k - 1 {
        lemma_min_attained(s, (k - 1) as nat, j);
        let j2 = choose|j2: int|
            0 <= j2 < k - 1 && bit_count(s[j2]) > 1 && bit_count(s[j2]) == min_entropy(s, (k - 1) as nat);
        assert(0 <= j2 < k && bit_count(s[j2]) > 1 && bit_count(s[j2]) == min_entropy(s, k));
    } else {
        lemma_bit_count_bound(s[k - 1]);
        if exists|j3: int| 0 <= j3 < k - 1 && bit_count(s[j3]) > 1 {
            let j3 = choose|j3: int| 0 <= j3 < k - 1 && bit_count(s[j3]) > 1;
            lemma_min_attained(s, (k - 1) as nat, j3);
            let j2 = choose|j2: int|
                0 <= j2 < k - 1 && bit_count(s[j2]) > 1 && bit_count(s[j2]) == min_entropy(
                    s,
                    (k - 1) as nat,
                );
            assert(0 <= j2 < k && bit_count(s[j2]) > 1 && bit_count(s[j2]) == min_entropy(s, k));
        } else {
            lemma_min_entropy_none(s, (k - 1) as nat);
        }
    }
}

/// A cell that holds more than one tile, `m` of them, is a candidate.
proof fn lemma_candidates_nonempty(s: Seq<u8>, k: nat, m: nat, j: int)
    requires
        k <= s.len(),
        0 <= j < k,
        bit_count(s[j]) > 1,
        bit_count(s[j]) == m,
    ensures
        entropy_candidates(s, k, m).len() > 0,
    decreases k,
{
    if j < k - 1 {
        lemma_candidates_nonempty(s, (k - 1) as nat, m, j);
    }
}

/// A tile that a mask holds makes a mask within it.
proof fn lemma_has_subset(m: u8, t: MacroTile)
    requires
        has(m, t),
    ensures
        subset(bit(t), m),
{
    lemma_mask_bits(m);
}

proof fn lemma_mask_bits(m: u8)
    by (bit_vector)
    ensures
        m & 1u8 != 0 ==> 1u8 & !m == 0,
        m & 2u8 != 0 ==> 2u8 & !m == 0,
        m & 4u8 != 0 ==> 4u8 & !m == 0,
        m & 8u8 != 0 ==> 8u8 & !m == 0,
        m & 16u8 != 0 ==> 16u8 & !m == 0,
        m & 32u8 != 0 ==> 32u8 & !m == 0,
{
}

/// Masks of every tile agree everywhere.
proof fn lemma_all_consistent(p: Seq<u8>)
    requires
        p.len() == cells(),
        forall|i: int| 0 <= i < p.len() ==> #[trigger] p[i] == ALL_TILE_MASK,
    ensures
        consistent(p),
        nonzero(p),
{
    lemma_compat_all(Direction::North);
    lemma_compat_all(Direction::South);
    lemma_compat_all(Direction::East);
    lemma_compat_all(Direction::West);
    assert forall|c: int| 0 <= c < cells() implies #[trigger] consistent_at(p, c) by {
        lemma_neighbor(c, Direction::North);
        lemma_neighbor(c, Direction::South);
        lemma_neighbor(c, Direction::East);
        lemma_neighbor(c, Direction::West);
    }
}

/// The mask that cell `i` takes from its tile in `g`, the cells numbered
/// row by row.
pub open spec fn kept_mask(g: Seq<Seq<MacroTile>>, i: int) -> u8 {
    bit(g[i / MAP_SIZE as int][i % MAP_SIZE as int])
}

/// The masks a grid is generated again from: each cell holds its tile in
/// `g`, but for the cells in `drawn`, which hold every tile.
pub open spec fn starting_masks(g: Seq<Seq<MacroTile>>, drawn: Seq<usize>) -> Seq<u8> {
    Seq::new(
        cells() as nat,
        |i: int|
            if drawn.contains(i as usize) {
                ALL_TILE_MASK
            } else {
                kept_mask(g, i)
            },
    )
}

/// Whether each cell of `g` outside `drawn` holds its tile in `k`.
pub open spec fn keeps_except(
    g: Seq<Seq<MacroTile>>,
    k: Seq<Seq<MacroTile>>,
    drawn: Seq<usize>,
) -> bool {
    forall|y: int, x: int|
        0 <= y < MAP_SIZE && 0 <= x < MAP_SIZE && !drawn.contains((y * MAP_SIZE + x) as usize)
            ==> #[trigger] g[y][x] == k[y][x]
}

/// Row `y`, column `x` is cell `y * MAP_SIZE + x`.
proof fn lemma_cell_index(y: int, x: int)
    requires
        0 <= y < MAP_SIZE,
        0 <= x < MAP_SIZE,
    ensures
        0 <= y * MAP_SIZE + x < cells(),
        (y * MAP_SIZE + x) / MAP_SIZE as int == y,
        (y * MAP_SIZE + x) % MAP_SIZE as int == x,
{
    lemma_fundamental_div_mod_converse(y * MAP_SIZE + x, MAP_SIZE as int, y, x);
    assert(0 <= y * 126 + x < 126 * 126) by (nonlinear_arith)
        requires
            0 <= y < 126,
            0 <= x < 126,
    ;
}

/// A prefix one longer holds what the shorter one holds and the next item.
proof fn lemma_take_contains(s: Seq<usize>, k: int, v: usize)
    requires
        0 <= k < s.len(),
    ensures
        s.take(k + 1).contains(v) == (s.take(k).contains(v) || s[k] == v),
{
    let longer = s.take(k + 1);
    let shorter = s.take(k);
    if longer.contains(v) {
        let j = choose|j: int| 0 <= j < longer.len() && #[trigger] longer[j] == v;
        if j < k {
            assert(shorter[j] == v);
        }
    }
    if shorter.contains(v) {
        let j = choose|j: int| 0 <= j < shorter.len() && #[trigger] shorter[j] == v;
        assert(longer[j] == v);
    }
    if s[k] == v {
        assert(longer[k] == v);
    }
}

/// The masks a grid is generated again from: each cell holds its tile in
/// `kinds`, but for the cells numbered in `drawn`, row by row, which hold
/// every tile.
pub fn starting_possibilities(kinds: &Vec<Vec<MacroTile>>, drawn: &Vec<usize>) -> (r: Vec<u8>)
    requires
        shaped(grid_view(kinds@)),
        forall|j: int| 0 <= j < drawn@.len() ==> #[trigger] drawn@[j] < cells(),
    ensures
        r@ == starting_masks(grid_view(kinds@), drawn@),
{
    let ghost g = grid_view(kinds@);
    let mut possibilities: Vec<u8> = Vec::new();
    let mut y: usize = 0;
    while y < MAP_SIZE
        invariant
            y <= MAP_SIZE,
            g == grid_view(kinds@),
            shaped(g),
            possibilities@.len() == y * MAP_SIZE,
            forall|i: int|
                0 <= i < possibilities@.len() ==> #[trigger] possibilities@[i] == kept_mask(g, i),
        decreases MAP_SIZE - y,
    {
        let mut x: usize = 0;
        while x < MAP_SIZE
            invariant
                y < MAP_SIZE,
                x <= MAP_SIZE,
                g == grid_view(kinds@),
                shaped(g),
                possibilities@.len() == y * MAP_SIZE + x,
                forall|i: int|
                    0 <= i < possibilities@.len() ==> #[trigger] possibilities@[i] == kept_mask(g, i),
            decreases MAP_SIZE - x,
        {
            assert(g[y as int].len() == MAP_SIZE);
            let tile = kinds[y][x];
            proof {
                lemma_cell_index(y as int, x as int);
            }
            possibilities.push(mask_for_tile(tile));
            x = x + 1;
        }
        y = y + 1;
    }
    assert(possibilities@ =~= starting_masks(g, drawn@.take(0)));
    let mut k: usize = 0;
    while k < drawn.len()
        invariant
            k <= drawn@.len(),
            forall|j: int| 0 <= j < drawn@.len() ==> #[trigger] drawn@[j] < cells(),
            possibilities@ == starting_masks(g, drawn@.take(k as int)),
        decreases drawn@.len() - k,
    {
        let index = drawn[k];
        possibilities.set(index, ALL_TILE_MASK);
        proof {
            assert forall|i: int| 0 <= i < cells() implies #[trigger] possibilities@[i]
                == starting_masks(g, drawn@.take(k + 1))[i] by {
                lemma_take_contains(drawn@, k as int, i as usize);
            }
            assert(possibilities@ =~= starting_masks(g, drawn@.take(k + 1)));
        }
        k = k + 1;
    }
    assert(drawn@.take(drawn@.len() as int) =~= drawn@);
    possibilities
}

/// No cell of the masks a grid is generated again from is empty.
proof fn lemma_starting_nonzero(g: Seq<Seq<MacroTile>>, drawn: Seq<usize>)
    ensures
        starting_masks(g, drawn).len() == cells(),
        nonzero(starting_masks(g, drawn)),
        six_bits(starting_masks(g, drawn)),
{
    let s = starting_masks(g, drawn);
    lemma_tile_bits();
    assert forall|i: int| 0 <= i < s.len() implies #[trigger] s[i] != 0 && s[i] & 0xc0u8 == 0 by {
        lemma_has_bit(g[i / MAP_SIZE as int][i % MAP_SIZE as int], MacroTile::Outside);
    }
}

/// A tile that `a` allows on its side `d` lies within the tiles that may
/// lie beside a cell holding `a` alone.
proof fn lemma_allowed_subset(a: MacroTile, d: Direction, b: MacroTile)
    requires
        allowed(a, d, b),
    ensures
        subset(bit(b), compat(bit(a), d)),
{
    lemma_compat_has(bit(a), d);
    lemma_has_bit(a, MacroTile::Outside);
    lemma_has_bit(a, MacroTile::Inside);
    lemma_has_bit(a, MacroTile::CellsNorth);
    lemma_has_bit(a, MacroTile::CellsSouth);
    lemma_has_bit(a, MacroTile::CellsEast);
    lemma_has_bit(a, MacroTile::CellsWest);
    assert(supports(bit(a), d, b));
    assert(has(compat(bit(a), d), b));
    lemma_has_subset(compat(bit(a), d), b);
}

/// A cell holding one tile within a cell holding one tile holds that tile.
proof fn lemma_single_within(a: MacroTile, b: MacroTile)
    requires
        subset(bit(a), bit(b)),
    ensures
        a == b,
{
    lemma_tile_bits();
    lemma_bit_ops(bit(a), bit(b), 0);
    lemma_has_bit(b, a);
    match a {
        MacroTile::Outside => assert(has(bit(b), a)),
        MacroTile::Inside => assert(has(bit(b), a)),
        MacroTile::CellsNorth => assert(has(bit(b), a)),
        MacroTile::CellsSouth => assert(has(bit(b), a)),
        MacroTile::CellsEast => assert(has(bit(b), a)),
        MacroTile::CellsWest => assert(has(bit(b), a)),
    }
}

/// Masks that hold the tiles of a grid whose tiles allow their neighbours
/// agree everywhere, hold one tile each, and give that grid back.
proof fn lemma_kept_masks(g: Seq<Seq<MacroTile>>, drawn: Seq<usize>)
    requires
        shaped(g),
        respects(g),
        drawn.len() == 0,
    ensures
        consistent(starting_masks(g, drawn)),
        all_single(starting_masks(g, drawn)),
        forall|i: int| 0 <= i < cells() ==> #[trigger] bit_count(starting_masks(g, drawn)[i]) <= 1,
        grid_of(starting_masks(g, drawn)) == g,
{
    let s = starting_masks(g, drawn);
    assert forall|i: int| 0 <= i < cells() implies s[i] == kept_mask(g, i) && #[trigger] bit_count(
        s[i],
    ) <= 1 && single_tile(s[i]) is Some by {
        assert(!drawn.contains(i as usize));
        lemma_single_tile(g[i / MAP_SIZE as int][i % MAP_SIZE as int]);
    }
    assert forall|c: int| 0 <= c < cells() implies #[trigger] consistent_at(s, c) by {
        lemma_fundamental_div_mod(c, MAP_SIZE as int);
        let y = c / MAP_SIZE as int;
        let x = c % MAP_SIZE as int;
        assert(s[c] == kept_mask(g, c));
        assert(tile_agrees(g, y, x));
        assert forall|d: Direction| #[trigger] agrees(s, c, d) by {
            lemma_neighbor(c, d);
            match d {
                Direction::North => if y > 0 {
                    lemma_cell_index(y - 1, x);
                    assert(s[c - MAP_SIZE] == kept_mask(g, c - MAP_SIZE));
                    lemma_allowed_subset(g[y][x], d, g[y - 1][x]);
                },
                Direction::South => if y + 1 < MAP_SIZE {
                    lemma_cell_index(y + 1, x);
                    assert(s[c + MAP_SIZE] == kept_mask(g, c + MAP_SIZE));
                    lemma_allowed_subset(g[y][x], d, g[y + 1][x]);
                },
                Direction::East => if x + 1 < MAP_SIZE {
                    lemma_cell_index(y, x + 1);
                    assert(s[c + 1] == kept_mask(g, c + 1));
                    lemma_allowed_subset(g[y][x], d, g[y][x + 1]);
                },
                Direction::West => if x > 0 {
                    lemma_cell_index(y, x - 1);
                    assert(s[c - 1] == kept_mask(g, c - 1));
                    lemma_allowed_subset(g[y][x], d, g[y][x - 1]);
                },
            }
        }
        assert(agrees(s, c, Direction::North));
        assert(agrees(s, c, Direction::South));
        assert(agrees(s, c, Direction::East));
        assert(agrees(s, c, Direction::West));
    }
    let h = grid_of(s);
    assert forall|y: int| 0 <= y < MAP_SIZE implies #[trigger] h[y] =~= g[y] by {
        assert forall|x: int| 0 <= x < MAP_SIZE implies #[trigger] h[y][x] == g[y][x] by {
            lemma_cell_index(y, x);
            lemma_single_tile(g[y][x]);
            assert(s[y * MAP_SIZE + x] == kept_mask(g, y * MAP_SIZE + x));
        }
    }
    assert(h =~= g);
}

/// Cells holding one tile each, within the masks a grid is generated again
/// from, keep the tiles of the cells not drawn.
proof fn lemma_keeps(p: Seq<u8>, g: Seq<Seq<MacroTile>>, drawn: Seq<usize>)
    requires
        refines(p, starting_masks(g, drawn)),
        all_single(p),
    ensures
        keeps_except(grid_of(p), g, drawn),
{
    let s = starting_masks(g, drawn);
    assert forall|y: int, x: int|
        0 <= y < MAP_SIZE && 0 <= x < MAP_SIZE && !drawn.contains(
            (y * MAP_SIZE + x) as usize,
        ) implies #[trigger] grid_of(p)[y][x] == g[y][x] by {
        let c = y * MAP_SIZE + x;
        lemma_cell_index(y, x);
        assert(s[c] == bit(g[y][x]));
        assert(subset(p[c], s[c]));
        assert(single_tile(p[c]) is Some);
        let t = single_tile(p[c]).unwrap();
        assert(p[c] == bit(t));
        lemma_single_within(t, g[y][x]);
    }
}

/// One attempt at a grid from scratch: every cell starts out holding every
/// tile. `None` where a choice leaves some cell no tile.
fn generate_random_tile_grid_attempt(random: &mut ThreadRng) -> (r: Option<Vec<Vec<MacroTile>>>)
    ensures
        r matches Some(g) ==> shaped(grid_view(g@)) && respects(grid_view(g@)),
{
    let mut possibilities: Vec<u8> = Vec::new();
    let mut i: usize = 0;
    while i < MAP_SIZE * MAP_SIZE
        invariant
            i <= cells(),
            possibilities@.len() == i,
            forall|k: int| 0 <= k < i ==> #[trigger] possibilities@[k] == ALL_TILE_MASK,
        decreases cells() - i,
    {
        possibilities.push(ALL_TILE_MASK);
        i = i + 1;
    }
    proof {
        lemma_all_consistent(possibilities@);
        lemma_tile_bits();
    }
    if !collapse(&mut possibilities, random) {
        return None;
    }
    let ghost p = possibilities@;
    let r = possibilities_to_grid(possibilities);
    proof {
        if r is Some {
            lemma_respects(p);
        }
    }
    r
}

/// One attempt at a grid close to `kinds`: `cleared_tiles` cells chosen at
/// random start out holding every tile, the others their tile in `kinds`.
/// `None` where no grid agrees with the cells kept, or a choice leaves some
/// cell no tile.
fn mutate_and_regenerate_tile_grid_attempt(
    kinds: &Vec<Vec<MacroTile>>,
    cleared_tiles: usize,
    random: &mut ThreadRng,
) -> (r: Option<Vec<Vec<MacroTile>>>)
    requires
        shaped(grid_view(kinds@)),
    ensures
        r matches Some(g) ==> shaped(grid_view(g@)) && respects(grid_view(g@)),
        r matches Some(g) ==> exists|drawn: Seq<usize>|
            drawn.len() == cleared_tiles && #[trigger] keeps_except(
                grid_view(g@),
                grid_view(kinds@),
                drawn,
            ),
        cleared_tiles == 0 && respects(grid_view(kinds@)) ==> (r matches Some(g) && grid_view(g@)
            == grid_view(kinds@)),
{
    let mut drawn: Vec<usize> = Vec::new();
    let mut k: usize = 0;
    while k < cleared_tiles
        invariant
            k <= cleared_tiles,
            drawn@.len() == k,
            forall|j: int| 0 <= j < drawn@.len() ==> #[trigger] drawn@[j] < cells(),
        decreases cleared_tiles - k,
    {
        let index = random_below(random, MAP_SIZE * MAP_SIZE);
        drawn.push(index);
        k = k + 1;
    }
    let mut possibilities = starting_possibilities(kinds, &drawn);
    let ghost g = grid_view(kinds@);
    let ghost start = possibilities@;
    proof {
        lemma_starting_nonzero(g, drawn@);
        if cleared_tiles == 0 && respects(g) {
            lemma_kept_masks(g, drawn@);
            assert forall|i: int| 0 <= i < start.len() implies #[trigger] subset(
                start[i],
                start[i],
            ) by {
                lemma_bit_ops(start[i], 0, 0);
            }
            assert(refines(start, start) && consistent(start) && nonzero(start));
        }
    }
    if !propagate_all_constraints(&mut possibilities) {
        return None;
    }
    let ghost p1 = possibilities@;
    proof {
        if cleared_tiles == 0 && respects(g) {
            assert(refines(start, p1));
            assert forall|i: int| 0 <= i < cells() implies #[trigger] p1[i] == start[i] by {
                assert(subset(start[i], p1[i]));
                assert(subset(p1[i], start[i]));
                lemma_bit_ops(start[i], p1[i], 0);
                lemma_bit_ops(p1[i], start[i], 0);
            }
            assert(p1 =~= start);
        }
        assert forall|i: int| 0 <= i < p1.len() implies #[trigger] p1[i] & 0xc0u8 == 0 by {
            assert(subset(p1[i], start[i]));
            lemma_six_bits(p1[i], start[i]);
        }
    }
    if !collapse(&mut possibilities, random) {
        return None;
    }
    let ghost p = possibilities@;
    let r = possibilities_to_grid(possibilities);
    proof {
        if r is Some {
            lemma_respects(p);
            lemma_refines_trans(p, p1, start);
            lemma_keeps(p, g, drawn@);
        }
    }
    r
}

/// A grid of `MAP_SIZE` by `MAP_SIZE` macro tiles, generated at random by
/// wave function collapse, in which every tile allows each of its
/// neighbours. `None` where several attempts in a row all failed.
pub fn generate_random_tile_grid() -> (r: Option<Vec<Vec<MacroTile>>>)
    ensures
        r matches Some(g) ==> shaped(grid_view(g@)) && respects(grid_view(g@)),
{
    let mut random = thread_rng();
    let mut attempt: usize = 0;
    while attempt < 64
        decreases 64 - attempt,
    {
        if let Some(grid) = generate_random_tile_grid_attempt(&mut random) {
            return Some(grid);
        }
        attempt = attempt + 1;
    }
    None
}

/// Replaces `kinds` by a grid generated again around `cleared_tiles` cells
/// chosen at random, keeping the other cells where the rules let it, or by
/// a grid generated from scratch where several attempts failed. `false`,
/// leaving `kinds` as it was, where that failed too; else every tile of
/// the new grid allows each of its neighbours.
pub fn mutate_and_regenerate_tile_grid(kinds: &mut Vec<Vec<MacroTile>>, cleared_tiles: usize) -> (r: bool)
    requires
        shaped(grid_view(old(kinds)@)),
    ensures
        r ==> shaped(grid_view(final(kinds)@)) && respects(grid_view(final(kinds)@)),
        !r ==> final(kinds)@ == old(kinds)@,
        cleared_tiles == 0 && respects(grid_view(old(kinds)@)) ==> r && grid_view(final(kinds)@)
            == grid_view(old(kinds)@),
{
    let mut random = thread_rng();
    let mut attempt: usize = 0;
    while attempt < 64
        invariant
            shaped(grid_view(kinds@)),
            kinds@ == old(kinds)@,
            cleared_tiles == 0 && respects(grid_view(old(kinds)@)) ==> attempt == 0,
        decreases 64 - attempt,
    {
        if let Some(next) = mutate_and_regenerate_tile_grid_attempt(kinds, cleared_tiles, &mut random) {
            *kinds = next;
            return true;
        }
        attempt = attempt + 1;
    }
    match generate_random_tile_grid() {
        Some(grid) => {
            *kinds = grid;
            true
        },
        None => false,
    }
}

} // verus!
