//! The tiles of the world that a grid of macro tiles paints: walls between
//! an inside and an outside region and around rows of cells, doors through
//! some of them, and the border of the map.
use crate::generate::{grid_view, is_cells, shaped, MacroTile, MAP_SIZE};
use vstd::arithmetic::div_mod::lemma_fundamental_div_mod_converse;
use crate::material::TileKind;
use vstd::prelude::*;
use vstd::wrapping::u64_specs::wrapping_mul;

verus! {

/// The number of tiles across and down the world.
pub const WORLD_SIZE: usize = 512;

/// The number of world tiles across a macro tile.
pub const TILE_SIZE: usize = 4;

/// The number of macro tiles across the world: the grid and a border of
/// one tile around it.
pub const LOGICAL_SIZE: usize = 128;

/// Whether a wall separates two neighbouring macro tiles: beside a row of
/// cells, and between the inside and the outside.
pub open spec fn fills(a: MacroTile, b: MacroTile) -> bool {
    is_cells(a) || is_cells(b) || (a == MacroTile::Outside && b == MacroTile::Inside) || (a
        == MacroTile::Inside && b == MacroTile::Outside)
}

/// Whether two neighbouring macro tiles are the inside and the outside.
pub open spec fn border(a: MacroTile, b: MacroTile) -> bool {
    (a == MacroTile::Inside && b == MacroTile::Outside) || (a == MacroTile::Outside && b
        == MacroTile::Inside)
}

/// Whether two neighbouring macro tiles are the inside and the outside does
/// not depend on which of them comes first: it holds exactly of the inside
/// beside the outside, either way round; and a wall stands between them. So
/// does whether a wall separates two tiles.
pub proof fn lemma_border_symmetric(a: MacroTile, b: MacroTile)
    ensures
        border(a, b) == border(b, a),
        fills(a, b) == fills(b, a),
        border(MacroTile::Inside, MacroTile::Outside),
        border(MacroTile::Outside, MacroTile::Inside),
        border(a, b) ==> a != b && (a == MacroTile::Inside || a == MacroTile::Outside) && (b
            == MacroTile::Inside || b == MacroTile::Outside),
        border(a, b) ==> fills(a, b),
        is_cells(a) ==> fills(a, b),
        !is_cells(a) && !is_cells(b) ==> fills(a, b) == border(a, b),
{
}

/// Whether a row of cells opens south from `a`, or north from `b` below it.
pub open spec fn two_doors_vertical(a: MacroTile, b: MacroTile) -> bool {
    a == MacroTile::CellsNorth || b == MacroTile::CellsSouth
}

/// Whether a row of cells opens west from `a`, or east from `b` beside it.
pub open spec fn two_doors_horizontal(a: MacroTile, b: MacroTile) -> bool {
    a == MacroTile::CellsEast || b == MacroTile::CellsWest
}

fn should_fill_wall(a: MacroTile, b: MacroTile) -> (r: bool)
    ensures
        r == fills(a, b),
{
    if a.is_cells_variant() || b.is_cells_variant() {
        return true;
    }
    matches!((a, b), (MacroTile::Outside, MacroTile::Inside) | (MacroTile::Inside, MacroTile::Outside))
}

fn is_inside_outside_border(a: MacroTile, b: MacroTile) -> (r: bool)
    ensures
        r == border(a, b),
{
    matches!((a, b), (MacroTile::Inside, MacroTile::Outside) | (MacroTile::Outside, MacroTile::Inside))
}

fn should_spawn_two_doors_vertical(a: MacroTile, b: MacroTile) -> (r: bool)
    ensures
        r == two_doors_vertical(a, b),
{
    match (a, b) {
        (MacroTile::CellsNorth, _) | (_, MacroTile::CellsSouth) => true,
        _ => false,
    }
}

fn should_spawn_two_doors_horizontal(a: MacroTile, b: MacroTile) -> (r: bool)
    ensures
        r == two_doors_horizontal(a, b),
{
    match (a, b) {
        (MacroTile::CellsEast, _) | (_, MacroTile::CellsWest) => true,
        _ => false,
    }
}

/// A hash of the tile `(x, y)` that picks about one border tile in twenty
/// for a door.
pub open spec fn border_door(x: u64, y: u64) -> bool {
    let h0 = wrapping_mul(x, 0x9E3779B97F4A7C15) ^ wrapping_mul(y, 0xC2B2AE3D27D4EB4F);
    let h1 = h0 ^ (h0 >> 33u64);
    let h2 = wrapping_mul(h1, 0xFF51AFD7ED558CCD);
    let h3 = h2 ^ (h2 >> 33u64);
    h3 % 100 < 5
}

fn deterministic_border_door(x: usize, y: usize) -> (r: bool)
    ensures
        r == border_door(x as u64, y as u64),
{
    let mut hash = (x as u64).wrapping_mul(0x9E3779B97F4A7C15);
    hash ^= (y as u64).wrapping_mul(0xC2B2AE3D27D4EB4F);
    hash ^= hash >> 33;
    hash = hash.wrapping_mul(0xFF51AFD7ED558CCD);
    hash ^= hash >> 33;
    (hash % 100) < 5
}

/// The index of the world tile in column `x` of row `y`.
fn world_xy_to_index(x: usize, y: usize) -> (r: usize)
    requires
        x < WORLD_SIZE,
        y < WORLD_SIZE,
    ensures
        r == y * WORLD_SIZE + x,
{
    y * WORLD_SIZE + x
}

/// Whether the world tile `(x, y)` lies on the five tiles from `(x0, y0)`
/// on, running east where `across` holds and south otherwise.
pub open spec fn on_segment(x: int, y: int, x0: int, y0: int, across: bool) -> bool {
    if across {
        y == y0 && x0 <= x <= x0 + 4
    } else {
        x == x0 && y0 <= y <= y0 + 4
    }
}

/// The wall, five world tiles from a start and a direction, that step
/// `(a, b)` of pass `f` of the painting lays, if any. Pass 0 walks the
/// macro rows `a` and columns `b` of the map and walls off horizontal
/// neighbours; pass 1 walls off vertical neighbours; pass 2 the west
/// (`b == 0`) and east (`b == 1`) edges of row `a`; pass 3 the north and
/// south edges of column `a`; pass 4 the middle of each row of cells. The
/// map's macro tile `(a, b)` is the grid's tile `(a - 1, b - 1)`: the grid
/// has a border of one macro tile around it.
pub open spec fn wall_segment(g: Seq<Seq<MacroTile>>, f: int, a: int, b: int) -> Option<(int, int, bool)> {
    if f == 0 {
        if 1 <= a < 127 && 1 <= b < 126 && fills(g[a - 1][b - 1], g[a - 1][b]) {
            Some(((b + 1) * 4, a * 4, false))
        } else {
            None
        }
    } else if f == 1 {
        if 1 <= a < 126 && 1 <= b < 127 && fills(g[a - 1][b - 1], g[a][b - 1]) {
            Some((b * 4, (a + 1) * 4, true))
        } else {
            None
        }
    } else if f == 2 {
        if 1 <= a < 127 && b == 0 && fills(g[a - 1][0], MacroTile::Outside) {
            Some((4, a * 4, false))
        } else if 1 <= a < 127 && b == 1 && fills(g[a - 1][125], MacroTile::Outside) {
            Some((508, a * 4, false))
        } else {
            None
        }
    } else if f == 3 {
        if 1 <= a < 127 && b == 0 && fills(g[0][a - 1], MacroTile::Outside) {
            Some((a * 4, 4, true))
        } else if 1 <= a < 127 && b == 1 && fills(g[125][a - 1], MacroTile::Outside) {
            Some((a * 4, 508, true))
        } else {
            None
        }
    } else if f == 4 {
        if 0 <= a < 126 && 0 <= b < 126 {
            match g[a][b] {
                MacroTile::CellsNorth | MacroTile::CellsSouth => Some(((b + 1) * 4 + 2, (a + 1) * 4, false)),
                MacroTile::CellsEast | MacroTile::CellsWest => Some(((b + 1) * 4, (a + 1) * 4 + 2, true)),
                _ => None,
            }
        } else {
            None
        }
    } else {
        None
    }
}

/// The doors, in order, that step `(a, b)` of pass `f` of the painting
/// places: one through a wall between the inside and the outside where the
/// hash of its middle tile picks it, and two through a wall that a row of
/// cells opens onto.
pub open spec fn door_cells(g: Seq<Seq<MacroTile>>, f: int, a: int, b: int) -> Seq<(int, int)> {
    if f == 0 && 1 <= a < 127 && 1 <= b < 126 {
        let l = g[a - 1][b - 1];
        let r = g[a - 1][b];
        let x = (b + 1) * 4;
        let y = a * 4;
        (if fills(l, r) && border(l, r) && border_door(x as u64, (y + 2) as u64) {
            seq![(x, y + 2)]
        } else {
            seq![]
        }) + (if two_doors_horizontal(l, r) {
            seq![(x, y + 1), (x, y + 3)]
        } else {
            seq![]
        })
    } else if f == 1 && 1 <= a < 126 && 1 <= b < 127 {
        let t = g[a - 1][b - 1];
        let u = g[a][b - 1];
        let x = b * 4;
        let y = (a + 1) * 4;
        (if fills(t, u) && border(t, u) && border_door((x + 2) as u64, y as u64) {
            seq![(x + 2, y)]
        } else {
            seq![]
        }) + (if two_doors_vertical(t, u) {
            seq![(x + 1, y), (x + 3, y)]
        } else {
            seq![]
        })
    } else if f == 2 && 1 <= a < 127 && (b == 0 || b == 1) {
        let e = if b == 0 {
            g[a - 1][0]
        } else {
            g[a - 1][125]
        };
        let x = if b == 0 {
            4
        } else {
            508
        };
        if fills(e, MacroTile::Outside) && border(e, MacroTile::Outside) && border_door(
            x as u64,
            (a * 4 + 2) as u64,
        ) {
            seq![(x, a * 4 + 2)]
        } else {
            seq![]
        }
    } else if f == 3 && 1 <= a < 127 && (b == 0 || b == 1) {
        let e = if b == 0 {
            g[0][a - 1]
        } else {
            g[125][a - 1]
        };
        let y = if b == 0 {
            4
        } else {
            508
        };
        if fills(e, MacroTile::Outside) && border(e, MacroTile::Outside) && border_door(
            (a * 4 + 2) as u64,
            y as u64,
        ) {
            seq![(a * 4 + 2, y)]
        } else {
            seq![]
        }
    } else {
        seq![]
    }
}

/// A macro tile seen in a mirror: mirrored left to right, rows of cells
/// opening east and west swap; mirrored top to bottom, those opening north
/// and south swap.
pub open spec fn mirrored(t: MacroTile, across: bool) -> MacroTile {
    match (t, across) {
        (MacroTile::CellsEast, true) => MacroTile::CellsWest,
        (MacroTile::CellsWest, true) => MacroTile::CellsEast,
        (MacroTile::CellsNorth, false) => MacroTile::CellsSouth,
        (MacroTile::CellsSouth, false) => MacroTile::CellsNorth,
        _ => t,
    }
}

/// Two doors go through a wall that a row of cells opens onto, whichever
/// side of the wall the row lies: seen in a mirror, with the two tiles
/// swapped, the wall still gets them; and a row that opens away from the
/// wall gives it none.
pub proof fn lemma_two_doors_mirror(a: MacroTile, b: MacroTile)
    ensures
        two_doors_horizontal(a, b) == two_doors_horizontal(mirrored(b, true), mirrored(a, true)),
        two_doors_vertical(a, b) == two_doors_vertical(mirrored(b, false), mirrored(a, false)),
        two_doors_horizontal(MacroTile::CellsEast, b),
        two_doors_horizontal(a, MacroTile::CellsWest),
        two_doors_vertical(MacroTile::CellsNorth, b),
        two_doors_vertical(a, MacroTile::CellsSouth),
        !is_cells(a) && !is_cells(b) ==> !two_doors_horizontal(a, b) && !two_doors_vertical(a, b),
        !two_doors_horizontal(MacroTile::CellsWest, MacroTile::CellsEast),
        !two_doors_vertical(MacroTile::CellsSouth, MacroTile::CellsNorth),
{
}

/// Every door that a step of the painting places lies on the wall that the
/// same step lays; so every door of the world lies in a wall.
pub proof fn lemma_doors_in_walls(g: Seq<Seq<MacroTile>>, f: int, a: int, b: int, p: (int, int))
    requires
        door_cells(g, f, a, b).contains(p),
    ensures
        covers(g, f, a, b, p.0, p.1),
        wall_at(g, p.0, p.1),
{
    let d = door_cells(g, f, a, b);
    let i = choose|i: int| 0 <= i < d.len() && d[i] == p;
    assert(d[i] == p);
    assert(covers(g, f, a, b, p.0, p.1));
}

/// Whether step `(f, a, b)` comes before step `(ff, aa, bb)`.
pub open spec fn lex_lt(f: int, a: int, b: int, ff: int, aa: int, bb: int) -> bool {
    f < ff || (f == ff && (a < aa || (a == aa && b < bb)))
}

/// Whether the wall of step `(f, a, b)` covers the world tile `(x, y)`.
pub open spec fn covers(g: Seq<Seq<MacroTile>>, f: int, a: int, b: int, x: int, y: int) -> bool {
    match wall_segment(g, f, a, b) {
        Some(s) => on_segment(x, y, s.0, s.1, s.2),
        None => false,
    }
}

/// Whether a step before `(ff, aa, bb)` lays a wall over `(x, y)`.
pub open spec fn walls_before(g: Seq<Seq<MacroTile>>, x: int, y: int, ff: int, aa: int, bb: int) -> bool {
    exists|f: int, a: int, b: int| lex_lt(f, a, b, ff, aa, bb) && #[trigger] covers(g, f, a, b, x, y)
}

/// Whether a step before `(ff, aa, bb)` places a door at `p`.
pub open spec fn doors_before(g: Seq<Seq<MacroTile>>, p: (int, int), ff: int, aa: int, bb: int) -> bool {
    exists|f: int, a: int, b: int|
        lex_lt(f, a, b, ff, aa, bb) && #[trigger] door_cells(g, f, a, b).contains(p)
}

/// Whether some step lays a wall over the world tile `(x, y)`.
pub open spec fn wall_at(g: Seq<Seq<MacroTile>>, x: int, y: int) -> bool {
    exists|f: int, a: int, b: int| #[trigger] covers(g, f, a, b, x, y)
}

/// Whether some step places a door at the world tile `(x, y)`.
pub open spec fn door_at(g: Seq<Seq<MacroTile>>, x: int, y: int) -> bool {
    exists|f: int, a: int, b: int| #[trigger] door_cells(g, f, a, b).contains((x, y))
}

/// What the world tile `(x, y)` becomes: a door where one is placed, else a
/// wall where one is laid, else empty.
pub open spec fn desired_kind(g: Seq<Seq<MacroTile>>, x: int, y: int) -> TileKind {
    if door_at(g, x, y) {
        TileKind::Door
    } else if wall_at(g, x, y) {
        TileKind::Wall
    } else {
        TileKind::Empty
    }
}

/// The doors as pairs of integers.
pub open spec fn door_view(d: Seq<(usize, usize)>) -> Seq<(int, int)> {
    d.map_values(|p: (usize, usize)| (p.0 as int, p.1 as int))
}

/// The number of world tiles.
pub open spec fn world_cells() -> int {
    WORLD_SIZE as int * WORLD_SIZE as int
}

/// Whether the tiles `desired` and the list `doors` hold what the steps
/// before `(ff, aa, bb)` painted.
pub open spec fn painted(
    g: Seq<Seq<MacroTile>>,
    desired: Seq<TileKind>,
    doors: Seq<(usize, usize)>,
    ff: int,
    aa: int,
    bb: int,
) -> bool {
    &&& desired == Seq::new(
        world_cells() as nat,
        |i: int|
            if walls_before(g, i % 512, i / 512, ff, aa, bb) {
                TileKind::Wall
            } else {
                TileKind::Empty
            },
    )
    &&& forall|p: (int, int)| #[trigger] door_view(doors).contains(p) <==> doors_before(g, p, ff, aa, bb)
    &&& forall|k: int| 0 <= k < doors.len() ==> #[trigger] doors[k].0 < WORLD_SIZE && doors[k].1 < WORLD_SIZE
}

/// Moving on from step `(f, a, b)` to step `(ff, aa, bb)`, past steps that
/// paint nothing, adds what step `(f, a, b)` paints.
proof fn lemma_advance(g: Seq<Seq<MacroTile>>, f: int, a: int, b: int, ff: int, aa: int, bb: int)
    requires
        lex_lt(f, a, b, ff, aa, bb),
        forall|f2: int, a2: int, b2: int|
            #![trigger lex_lt(f, a, b, f2, a2, b2), lex_lt(f2, a2, b2, ff, aa, bb)]
            lex_lt(f, a, b, f2, a2, b2) && lex_lt(f2, a2, b2, ff, aa, bb) ==> wall_segment(g, f2, a2, b2) is None
                && door_cells(g, f2, a2, b2).len() == 0,
    ensures
        forall|x: int, y: int|
            #[trigger] walls_before(g, x, y, ff, aa, bb) == (walls_before(g, x, y, f, a, b) || covers(
                g,
                f,
                a,
                b,
                x,
                y,
            )),
        forall|p: (int, int)|
            #[trigger] doors_before(g, p, ff, aa, bb) == (doors_before(g, p, f, a, b) || door_cells(
                g,
                f,
                a,
                b,
            ).contains(p)),
{
    assert forall|x: int, y: int|
        #[trigger] walls_before(g, x, y, ff, aa, bb) == (walls_before(g, x, y, f, a, b) || covers(
            g,
            f,
            a,
            b,
            x,
            y,
        )) by {
        if walls_before(g, x, y, ff, aa, bb) {
            let (f2, a2, b2) = choose|f2: int, a2: int, b2: int|
                lex_lt(f2, a2, b2, ff, aa, bb) && #[trigger] covers(g, f2, a2, b2, x, y);
            if !lex_lt(f2, a2, b2, f, a, b) && !(f2 == f && a2 == a && b2 == b) {
                assert(lex_lt(f, a, b, f2, a2, b2));
            }
        }
        if covers(g, f, a, b, x, y) {
            assert(lex_lt(f, a, b, ff, aa, bb) && covers(g, f, a, b, x, y));
        }
        if walls_before(g, x, y, f, a, b) {
            let (f2, a2, b2) = choose|f2: int, a2: int, b2: int|
                lex_lt(f2, a2, b2, f, a, b) && #[trigger] covers(g, f2, a2, b2, x, y);
            assert(lex_lt(f2, a2, b2, ff, aa, bb));
        }
    }
    assert forall|p: (int, int)|
        #[trigger] doors_before(g, p, ff, aa, bb) == (doors_before(g, p, f, a, b) || door_cells(
            g,
            f,
            a,
            b,
        ).contains(p)) by {
        if doors_before(g, p, ff, aa, bb) {
            let (f2, a2, b2) = choose|f2: int, a2: int, b2: int|
                lex_lt(f2, a2, b2, ff, aa, bb) && #[trigger] door_cells(g, f2, a2, b2).contains(p);
            if !lex_lt(f2, a2, b2, f, a, b) && !(f2 == f && a2 == a && b2 == b) {
                assert(lex_lt(f, a, b, f2, a2, b2));
                assert(door_cells(g, f2, a2, b2).len() == 0);
            }
        }
        if door_cells(g, f, a, b).contains(p) {
            assert(lex_lt(f, a, b, ff, aa, bb) && door_cells(g, f, a, b).contains(p));
        }
        if doors_before(g, p, f, a, b) {
            let (f2, a2, b2) = choose|f2: int, a2: int, b2: int|
                lex_lt(f2, a2, b2, f, a, b) && #[trigger] door_cells(g, f2, a2, b2).contains(p);
            assert(lex_lt(f2, a2, b2, ff, aa, bb));
        }
    }
}

/// The world tile `i` lies in column `i % 512` of row `i / 512`.
proof fn lemma_world_index(i: int, x: int, y: int)
    requires
        0 <= x < WORLD_SIZE,
        0 <= y < WORLD_SIZE,
    ensures
        (i % 512 == x && i / 512 == y) <==> i == y * 512 + x,
        0 <= y * 512 + x < world_cells(),
{
    vstd::arithmetic::div_mod::lemma_fundamental_div_mod(i, 512);
    if i == y * 512 + x {
        lemma_fundamental_div_mod_converse(i, 512, y, x);
    }
    assert(0 <= y * 512 + x < world_cells()) by (nonlinear_arith)
        requires
            0 <= x < 512,
            0 <= y < 512,
    ;
}

/// Lays a wall over the five world tiles from `(x0, y0)` on, running east
/// where `across` holds and south otherwise.
fn mark_wall_segment(desired: &mut Vec<TileKind>, x0: usize, y0: usize, across: bool)
    requires
        old(desired)@.len() == world_cells(),
        across ==> x0 + 4 < WORLD_SIZE && y0 < WORLD_SIZE,
        !across ==> x0 < WORLD_SIZE && y0 + 4 < WORLD_SIZE,
    ensures
        final(desired)@ == Seq::new(
            world_cells() as nat,
            |i: int|
                if on_segment(i % 512, i / 512, x0 as int, y0 as int, across) {
                    TileKind::Wall
                } else {
                    old(desired)@[i]
                },
        ),
{
    let ghost start = desired@;
    let mut k: usize = 0;
    while k < 5
        invariant
            k <= 5,
            start == old(desired)@,
            desired@.len() == world_cells(),
            across ==> x0 + 4 < WORLD_SIZE && y0 < WORLD_SIZE,
            !across ==> x0 < WORLD_SIZE && y0 + 4 < WORLD_SIZE,
            desired@ == Seq::new(
                world_cells() as nat,
                |i: int|
                    if (if across {
                        i / 512 == y0 && x0 <= i % 512 < x0 + k
                    } else {
                        i % 512 == x0 && y0 <= i / 512 < y0 + k
                    }) {
                        TileKind::Wall
                    } else {
                        start[i]
                    },
            ),
        decreases 5 - k,
    {
        let (x, y) = if across {
            (x0 + k, y0)
        } else {
            (x0, y0 + k)
        };
        let index = world_xy_to_index(x, y);
        let ghost before = desired@;
        desired.set(index, TileKind::Wall);
        proof {
            assert forall|i: int| 0 <= i < world_cells() implies #[trigger] desired@[i] == (if (if across {
                i / 512 == y0 && x0 <= i % 512 < x0 + k + 1
            } else {
                i % 512 == x0 && y0 <= i / 512 < y0 + k + 1
            }) {
                TileKind::Wall
            } else {
                start[i]
            }) by {
                lemma_world_index(i, x as int, y as int);
            }
        }
        assert(desired@ =~= Seq::new(
            world_cells() as nat,
            |i: int|
                if (if across {
                    i / 512 == y0 && x0 <= i % 512 < x0 + k + 1
                } else {
                    i % 512 == x0 && y0 <= i / 512 < y0 + k + 1
                }) {
                    TileKind::Wall
                } else {
                    start[i]
                },
        ));
        k = k + 1;
    }
    assert(desired@ =~= Seq::new(
        world_cells() as nat,
        |i: int|
            if on_segment(i % 512, i / 512, x0 as int, y0 as int, across) {
                TileKind::Wall
            } else {
                start[i]
            },
    ));
}

/// One step of the painting, from step `(f, a, b)` on to step
/// `(ff, aa, bb)` past steps that paint nothing, keeps the picture.
proof fn lemma_step_painted(
    g: Seq<Seq<MacroTile>>,
    d: Seq<TileKind>,
    doors: Seq<(usize, usize)>,
    d2: Seq<TileKind>,
    doors2: Seq<(usize, usize)>,
    f: int,
    a: int,
    b: int,
    ff: int,
    aa: int,
    bb: int,
)
    requires
        painted(g, d, doors, f, a, b),
        lex_lt(f, a, b, ff, aa, bb),
        forall|f2: int, a2: int, b2: int|
            #![trigger lex_lt(f, a, b, f2, a2, b2), lex_lt(f2, a2, b2, ff, aa, bb)]
            lex_lt(f, a, b, f2, a2, b2) && lex_lt(f2, a2, b2, ff, aa, bb) ==> wall_segment(g, f2, a2, b2) is None
                && door_cells(g, f2, a2, b2).len() == 0,
        d2 == Seq::new(
            world_cells() as nat,
            |i: int|
                if covers(g, f, a, b, i % 512, i / 512) {
                    TileKind::Wall
                } else {
                    d[i]
                },
        ),
        door_view(doors2) == door_view(doors) + door_cells(g, f, a, b),
        forall|k: int| 0 <= k < doors2.len() ==> #[trigger] doors2[k].0 < WORLD_SIZE && doors2[k].1 < WORLD_SIZE,
    ensures
        painted(g, d2, doors2, ff, aa, bb),
{
    lemma_advance(g, f, a, b, ff, aa, bb);
    assert(d2 =~= Seq::new(
        world_cells() as nat,
        |i: int|
            if walls_before(g, i % 512, i / 512, ff, aa, bb) {
                TileKind::Wall
            } else {
                TileKind::Empty
            },
    ));
    assert forall|p: (int, int)| #[trigger] door_view(doors2).contains(p) <==> doors_before(
        g,
        p,
        ff,
        aa,
        bb,
    ) by {
        vstd::seq_lib::lemma_seq_contains_after_push(door_view(doors), p, p);
        let c = door_cells(g, f, a, b);
        if door_view(doors2).contains(p) {
            let k = choose|k: int| 0 <= k < door_view(doors2).len() && door_view(doors2)[k] == p;
            if k < door_view(doors).len() {
                assert(door_view(doors).contains(p));
            } else {
                assert(c[k - door_view(doors).len()] == p);
                assert(c.contains(p));
            }
        }
        if door_view(doors).contains(p) {
            let k = choose|k: int| 0 <= k < door_view(doors).len() && door_view(doors)[k] == p;
            assert(door_view(doors2)[k] == p);
        }
        if c.contains(p) {
            let k = choose|k: int| 0 <= k < c.len() && c[k] == p;
            assert(door_view(doors2)[door_view(doors).len() + k] == p);
        }
    }
}

/// Moving on past steps that paint nothing keeps the picture.
proof fn lemma_skip(
    g: Seq<Seq<MacroTile>>,
    d: Seq<TileKind>,
    doors: Seq<(usize, usize)>,
    f: int,
    a: int,
    b: int,
    ff: int,
    aa: int,
    bb: int,
)
    requires
        painted(g, d, doors, f, a, b),
        lex_lt(f, a, b, ff, aa, bb),
        wall_segment(g, f, a, b) is None,
        door_cells(g, f, a, b).len() == 0,
        forall|f2: int, a2: int, b2: int|
            #![trigger lex_lt(f, a, b, f2, a2, b2), lex_lt(f2, a2, b2, ff, aa, bb)]
            lex_lt(f, a, b, f2, a2, b2) && lex_lt(f2, a2, b2, ff, aa, bb) ==> wall_segment(g, f2, a2, b2) is None
                && door_cells(g, f2, a2, b2).len() == 0,
    ensures
        painted(g, d, doors, ff, aa, bb),
{
    assert(d =~= Seq::new(
        world_cells() as nat,
        |i: int|
            if covers(g, f, a, b, i % 512, i / 512) {
                TileKind::Wall
            } else {
                d[i]
            },
    ));
    assert(door_view(doors) =~= door_view(doors) + door_cells(g, f, a, b));
    lemma_step_painted(g, d, doors, d, doors, f, a, b, ff, aa, bb);
}

/// The steps before the first paint nothing.
proof fn lemma_painted_start(g: Seq<Seq<MacroTile>>, d: Seq<TileKind>)
    requires
        d == Seq::new(world_cells() as nat, |i: int| TileKind::Empty),
    ensures
        painted(g, d, Seq::empty(), 0, 1, 1),
{
    assert forall|x: int, y: int| !walls_before(g, x, y, 0, 1, 1) by {
        if walls_before(g, x, y, 0, 1, 1) {
            let (f, a, b) = choose|f: int, a: int, b: int|
                lex_lt(f, a, b, 0, 1, 1) && #[trigger] covers(g, f, a, b, x, y);
            assert(wall_segment(g, f, a, b) is None);
        }
    }
    assert(d =~= Seq::new(
        world_cells() as nat,
        |i: int|
            if walls_before(g, i % 512, i / 512, 0, 1, 1) {
                TileKind::Wall
            } else {
                TileKind::Empty
            },
    ));
    assert forall|p: (int, int)| #[trigger] door_view(Seq::<(usize, usize)>::empty()).contains(p)
        <==> doors_before(g, p, 0, 1, 1) by {
        if doors_before(g, p, 0, 1, 1) {
            let (f, a, b) = choose|f: int, a: int, b: int|
                lex_lt(f, a, b, 0, 1, 1) && #[trigger] door_cells(g, f, a, b).contains(p);
            assert(door_cells(g, f, a, b).len() == 0);
        }
    }
}

/// After the last step, the picture holds every wall and door.
proof fn lemma_painted_end(g: Seq<Seq<MacroTile>>, x: int, y: int)
    ensures
        walls_before(g, x, y, 5, 0, 0) == wall_at(g, x, y),
        doors_before(g, (x, y), 5, 0, 0) == door_at(g, x, y),
{
    if wall_at(g, x, y) {
        let (f, a, b) = choose|f: int, a: int, b: int| #[trigger] covers(g, f, a, b, x, y);
        assert(lex_lt(f, a, b, 5, 0, 0));
    }
    if door_at(g, x, y) {
        let (f, a, b) = choose|f: int, a: int, b: int| #[trigger] door_cells(g, f, a, b).contains((x, y));
        assert(lex_lt(f, a, b, 5, 0, 0));
    }
}

/// The world tiles that the grid `kinds` paints, row by row: walls between
/// horizontal and between vertical neighbours that [`fills`] separates,
/// along the border of the map where the grid's edge needs it, and through
/// the middle of each row of cells; then doors, which replace walls.
pub fn desired_tiles(kinds: &Vec<Vec<MacroTile>>) -> (r: Vec<TileKind>)
    requires
        shaped(grid_view(kinds@)),
    ensures
        r@ == Seq::new(
            world_cells() as nat,
            |i: int| desired_kind(grid_view(kinds@), i % 512, i / 512),
        ),
{
    let ghost g = grid_view(kinds@);
    let mut desired: Vec<TileKind> = Vec::new();
    while desired.len() < WORLD_SIZE * WORLD_SIZE
        invariant
            desired@.len() <= world_cells(),
            desired@ == Seq::new(desired@.len(), |i: int| TileKind::Empty),
        decreases world_cells() - desired@.len(),
    {
        desired.push(TileKind::Empty);
        assert(desired@ =~= Seq::new(desired@.len(), |i: int| TileKind::Empty));
    }
    let mut desired_doors: Vec<(usize, usize)> = Vec::new();
    proof {
        lemma_painted_start(g, desired@);
    }
    assert forall|y: int| 0 <= y < MAP_SIZE implies #[trigger] kinds@[y]@.len() == MAP_SIZE by {
        assert(g[y] == kinds@[y]@);
    }
    // Walls between horizontal neighbours.
    let mut logical_y: usize = 1;
    while logical_y < LOGICAL_SIZE - 1
        invariant
            1 <= logical_y <= LOGICAL_SIZE - 1,
            g == grid_view(kinds@),
            shaped(g),
            kinds@.len() == MAP_SIZE,
            forall|y: int| 0 <= y < MAP_SIZE ==> #[trigger] kinds@[y]@.len() == MAP_SIZE,
            painted(g, desired@, desired_doors@, 0, logical_y as int, 1),
        decreases LOGICAL_SIZE - logical_y,
    {
        let mut logical_x: usize = 1;
        while logical_x < LOGICAL_SIZE - 2
            invariant
                1 <= logical_y < LOGICAL_SIZE - 1,
                1 <= logical_x <= LOGICAL_SIZE - 2,
                g == grid_view(kinds@),
                shaped(g),
                kinds@.len() == MAP_SIZE,
                forall|y: int| 0 <= y < MAP_SIZE ==> #[trigger] kinds@[y]@.len() == MAP_SIZE,
                painted(g, desired@, desired_doors@, 0, logical_y as int, logical_x as int),
            decreases LOGICAL_SIZE - logical_x,
        {
            let ghost d0 = desired@;
            let ghost doors0 = desired_doors@;
            let left = kinds[logical_y - 1][logical_x - 1];
            let right = kinds[logical_y - 1][logical_x];
            let world_x = (logical_x + 1) * TILE_SIZE;
            let world_y_start = logical_y * TILE_SIZE;
            if should_fill_wall(left, right) {
                mark_wall_segment(&mut desired, world_x, world_y_start, false);
                if is_inside_outside_border(left, right) && deterministic_border_door(
                    world_x,
                    world_y_start + 2,
                ) {
                    desired_doors.push((world_x, world_y_start + 2));
                }
            }
            if should_spawn_two_doors_horizontal(left, right) {
                desired_doors.push((world_x, world_y_start + 1));
                desired_doors.push((world_x, world_y_start + 3));
            }
            proof {
                let (la, lb) = (logical_y as int, logical_x as int);
                assert(desired@ =~= Seq::new(
                    world_cells() as nat,
                    |i: int|
                        if covers(g, 0, la, lb, i % 512, i / 512) {
                            TileKind::Wall
                        } else {
                            d0[i]
                        },
                ));
                assert(door_view(desired_doors@) =~= door_view(doors0) + door_cells(g, 0, la, lb));
                lemma_step_painted(g, d0, doors0, desired@, desired_doors@, 0, la, lb, 0, la, lb + 1);
            }
            logical_x = logical_x + 1;
        }
        proof {
            lemma_skip(g, desired@, desired_doors@,
                0,
                logical_y as int,
                126,
                0,
                logical_y + 1,
                1,
            );
        }
        logical_y = logical_y + 1;
    }
    proof {
        lemma_skip(g, desired@, desired_doors@, 0, 127, 1, 1, 1, 1);
    }
    // Walls between vertical neighbours.
    let mut logical_y: usize = 1;
    while logical_y < LOGICAL_SIZE - 2
        invariant
            1 <= logical_y <= LOGICAL_SIZE - 2,
            g == grid_view(kinds@),
            shaped(g),
            kinds@.len() == MAP_SIZE,
            forall|y: int| 0 <= y < MAP_SIZE ==> #[trigger] kinds@[y]@.len() == MAP_SIZE,
            painted(g, desired@, desired_doors@, 1, logical_y as int, 1),
        decreases LOGICAL_SIZE - logical_y,
    {
        let mut logical_x: usize = 1;
        while logical_x < LOGICAL_SIZE - 1
            invariant
                1 <= logical_y < LOGICAL_SIZE - 2,
                1 <= logical_x <= LOGICAL_SIZE - 1,
                g == grid_view(kinds@),
                shaped(g),
                kinds@.len() == MAP_SIZE,
                forall|y: int| 0 <= y < MAP_SIZE ==> #[trigger] kinds@[y]@.len() == MAP_SIZE,
                painted(g, desired@, desired_doors@, 1, logical_y as int, logical_x as int),
            decreases LOGICAL_SIZE - logical_x,
        {
            let ghost d0 = desired@;
            let ghost doors0 = desired_doors@;
            let top = kinds[logical_y - 1][logical_x - 1];
            let bottom = kinds[logical_y][logical_x - 1];
            let world_y = (logical_y + 1) * TILE_SIZE;
            let world_x_start = logical_x * TILE_SIZE;
            if should_fill_wall(top, bottom) {
                mark_wall_segment(&mut desired, world_x_start, world_y, true);
                if is_inside_outside_border(top, bottom) && deterministic_border_door(
                    world_x_start + 2,
                    world_y,
                ) {
                    desired_doors.push((world_x_start + 2, world_y));
                }
            }
            if should_spawn_two_doors_vertical(top, bottom) {
                desired_doors.push((world_x_start + 1, world_y));
                desired_doors.push((world_x_start + 3, world_y));
            }
            proof {
                let (la, lb) = (logical_y as int, logical_x as int);
                assert(desired@ =~= Seq::new(
                    world_cells() as nat,
                    |i: int|
                        if covers(g, 1, la, lb, i % 512, i / 512) {
                            TileKind::Wall
                        } else {
                            d0[i]
                        },
                ));
                assert(door_view(desired_doors@) =~= door_view(doors0) + door_cells(g, 1, la, lb));
                lemma_step_painted(g, d0, doors0, desired@, desired_doors@, 1, la, lb, 1, la, lb + 1);
            }
            logical_x = logical_x + 1;
        }
        proof {
            lemma_skip(g, desired@, desired_doors@,
                1,
                logical_y as int,
                127,
                1,
                logical_y + 1,
                1,
            );
        }
        logical_y = logical_y + 1;
    }
    proof {
        lemma_skip(g, desired@, desired_doors@, 1, 126, 1, 2, 1, 0);
    }
    // Walls between the grid and the empty border of the map, west and east.
    let mut logical_y: usize = 1;
    while logical_y < LOGICAL_SIZE - 1
        invariant
            1 <= logical_y <= LOGICAL_SIZE - 1,
            g == grid_view(kinds@),
            shaped(g),
            kinds@.len() == MAP_SIZE,
            forall|y: int| 0 <= y < MAP_SIZE ==> #[trigger] kinds@[y]@.len() == MAP_SIZE,
            painted(g, desired@, desired_doors@, 2, logical_y as int, 0),
        decreases LOGICAL_SIZE - logical_y,
    {
        let ghost d0 = desired@;
        let ghost doors0 = desired_doors@;
        let left_edge_tile = kinds[logical_y - 1][0];
        if should_fill_wall(left_edge_tile, MacroTile::Outside) {
            let world_x = TILE_SIZE;
            let world_y_start = logical_y * TILE_SIZE;
            mark_wall_segment(&mut desired, world_x, world_y_start, false);
            if is_inside_outside_border(left_edge_tile, MacroTile::Outside)
                && deterministic_border_door(world_x, world_y_start + 2) {
                desired_doors.push((world_x, world_y_start + 2));
            }
        }
        proof {
            let la = logical_y as int;
            assert(desired@ =~= Seq::new(
                world_cells() as nat,
                |i: int|
                    if covers(g, 2, la, 0, i % 512, i / 512) {
                        TileKind::Wall
                    } else {
                        d0[i]
                    },
            ));
            assert(door_view(desired_doors@) =~= door_view(doors0) + door_cells(g, 2, la, 0));
            lemma_step_painted(g, d0, doors0, desired@, desired_doors@, 2, la, 0, 2, la, 1);
        }
        let ghost d1 = desired@;
        let ghost doors1 = desired_doors@;
        let right_edge_tile = kinds[logical_y - 1][MAP_SIZE - 1];
        if should_fill_wall(right_edge_tile, MacroTile::Outside) {
            let world_x = (LOGICAL_SIZE - 1) * TILE_SIZE;
            let world_y_start = logical_y * TILE_SIZE;
            mark_wall_segment(&mut desired, world_x, world_y_start, false);
            if is_inside_outside_border(right_edge_tile, MacroTile::Outside)
                && deterministic_border_door(world_x, world_y_start + 2) {
                desired_doors.push((world_x, world_y_start + 2));
            }
        }
        proof {
            let la = logical_y as int;
            assert(desired@ =~= Seq::new(
                world_cells() as nat,
                |i: int|
                    if covers(g, 2, la, 1, i % 512, i / 512) {
                        TileKind::Wall
                    } else {
                        d1[i]
                    },
            ));
            assert(door_view(desired_doors@) =~= door_view(doors1) + door_cells(g, 2, la, 1));
            lemma_step_painted(g, d1, doors1, desired@, desired_doors@, 2, la, 1, 2, la + 1, 0);
        }
        logical_y = logical_y + 1;
    }
    proof {
        lemma_skip(g, desired@, desired_doors@, 2, 127, 0, 3, 1, 0);
    }
    // Walls between the grid and the empty border of the map, north and
    // south.
    let mut logical_x: usize = 1;
    while logical_x < LOGICAL_SIZE - 1
        invariant
            1 <= logical_x <= LOGICAL_SIZE - 1,
            g == grid_view(kinds@),
            shaped(g),
            kinds@.len() == MAP_SIZE,
            forall|y: int| 0 <= y < MAP_SIZE ==> #[trigger] kinds@[y]@.len() == MAP_SIZE,
            painted(g, desired@, desired_doors@, 3, logical_x as int, 0),
        decreases LOGICAL_SIZE - logical_x,
    {
        let ghost d0 = desired@;
        let ghost doors0 = desired_doors@;
        let top_edge_tile = kinds[0][logical_x - 1];
        if should_fill_wall(top_edge_tile, MacroTile::Outside) {
            let world_y = TILE_SIZE;
            let world_x_start = logical_x * TILE_SIZE;
            mark_wall_segment(&mut desired, world_x_start, world_y, true);
            if is_inside_outside_border(top_edge_tile, MacroTile::Outside)
                && deterministic_border_door(world_x_start + 2, world_y) {
                desired_doors.push((world_x_start + 2, world_y));
            }
        }
        proof {
            let la = logical_x as int;
            assert(desired@ =~= Seq::new(
                world_cells() as nat,
                |i: int|
                    if covers(g, 3, la, 0, i % 512, i / 512) {
                        TileKind::Wall
                    } else {
                        d0[i]
                    },
            ));
            assert(door_view(desired_doors@) =~= door_view(doors0) + door_cells(g, 3, la, 0));
            lemma_step_painted(g, d0, doors0, desired@, desired_doors@, 3, la, 0, 3, la, 1);
        }
        let ghost d1 = desired@;
        let ghost doors1 = desired_doors@;
        let bottom_edge_tile = kinds[MAP_SIZE - 1][logical_x - 1];
        if should_fill_wall(bottom_edge_tile, MacroTile::Outside) {
            let world_y = (LOGICAL_SIZE - 1) * TILE_SIZE;
            let world_x_start = logical_x * TILE_SIZE;
            mark_wall_segment(&mut desired, world_x_start, world_y, true);
            if is_inside_outside_border(bottom_edge_tile, MacroTile::Outside)
                && deterministic_border_door(world_x_start + 2, world_y) {
                desired_doors.push((world_x_start + 2, world_y));
            }
        }
        proof {
            let la = logical_x as int;
            assert(desired@ =~= Seq::new(
                world_cells() as nat,
                |i: int|
                    if covers(g, 3, la, 1, i % 512, i / 512) {
                        TileKind::Wall
                    } else {
                        d1[i]
                    },
            ));
            assert(door_view(desired_doors@) =~= door_view(doors1) + door_cells(g, 3, la, 1));
            lemma_step_painted(g, d1, doors1, desired@, desired_doors@, 3, la, 1, 3, la + 1, 0);
        }
        logical_x = logical_x + 1;
    }
    proof {
        lemma_skip(g, desired@, desired_doors@, 3, 127, 0, 4, 0, 0);
    }
    // Walls through the middle of each row of cells.
    let mut kind_y: usize = 0;
    while kind_y < MAP_SIZE
        invariant
            kind_y <= MAP_SIZE,
            g == grid_view(kinds@),
            shaped(g),
            kinds@.len() == MAP_SIZE,
            forall|y: int| 0 <= y < MAP_SIZE ==> #[trigger] kinds@[y]@.len() == MAP_SIZE,
            painted(g, desired@, desired_doors@, 4, kind_y as int, 0),
        decreases MAP_SIZE - kind_y,
    {
        let mut kind_x: usize = 0;
        while kind_x < MAP_SIZE
            invariant
                kind_y < MAP_SIZE,
                kind_x <= MAP_SIZE,
                g == grid_view(kinds@),
                shaped(g),
                kinds@.len() == MAP_SIZE,
                forall|y: int| 0 <= y < MAP_SIZE ==> #[trigger] kinds@[y]@.len() == MAP_SIZE,
                painted(g, desired@, desired_doors@, 4, kind_y as int, kind_x as int),
            decreases MAP_SIZE - kind_x,
        {
            let ghost d0 = desired@;
            let tile_kind = kinds[kind_y][kind_x];
            let logical_x = kind_x + 1;
            let logical_y = kind_y + 1;
            let world_x_start = logical_x * TILE_SIZE;
            let world_y_start = logical_y * TILE_SIZE;
            match tile_kind {
                MacroTile::CellsNorth | MacroTile::CellsSouth => {
                    let center_x = world_x_start + 2;
                    mark_wall_segment(&mut desired, center_x, world_y_start, false);
                },
                MacroTile::CellsEast | MacroTile::CellsWest => {
                    let center_y = world_y_start + 2;
                    mark_wall_segment(&mut desired, world_x_start, center_y, true);
                },
                MacroTile::Outside | MacroTile::Inside => {},
            }
            proof {
                let (la, lb) = (kind_y as int, kind_x as int);
                assert(desired@ =~= Seq::new(
                    world_cells() as nat,
                    |i: int|
                        if covers(g, 4, la, lb, i % 512, i / 512) {
                            TileKind::Wall
                        } else {
                            d0[i]
                        },
                ));
                assert(door_view(desired_doors@) =~= door_view(desired_doors@) + door_cells(g, 4, la, lb));
                lemma_step_painted(g, d0, desired_doors@, desired@, desired_doors@, 4, la, lb, 4, la, lb + 1);
            }
            kind_x = kind_x + 1;
        }
        proof {
            lemma_skip(g, desired@, desired_doors@,
                4,
                kind_y as int,
                126,
                4,
                kind_y + 1,
                0,
            );
        }
        kind_y = kind_y + 1;
    }
    proof {
        lemma_skip(g, desired@, desired_doors@, 4, 126, 0, 5, 0, 0);
    }
    // Doors replace the walls.
    let ghost walls = desired@;
    let mut k: usize = 0;
    while k < desired_doors.len()
        invariant
            k <= desired_doors@.len(),
            painted(g, walls, desired_doors@, 5, 0, 0),
            desired@ == Seq::new(
                world_cells() as nat,
                |i: int|
                    if door_view(desired_doors@.take(k as int)).contains((i % 512, i / 512)) {
                        TileKind::Door
                    } else {
                        walls[i]
                    },
            ),
        decreases desired_doors@.len() - k,
    {
        let (x, y) = desired_doors[k];
        assert(desired_doors@[k as int].0 < WORLD_SIZE && desired_doors@[k as int].1 < WORLD_SIZE);
        let index = world_xy_to_index(x, y);
        desired.set(index, TileKind::Door);
        proof {
            let before = door_view(desired_doors@.take(k as int));
            let after = door_view(desired_doors@.take(k + 1));
            assert(after =~= before.push((x as int, y as int)));
            assert forall|i: int| 0 <= i < world_cells() implies #[trigger] desired@[i] == (if after.contains(
                (i % 512, i / 512),
            ) {
                TileKind::Door
            } else {
                walls[i]
            }) by {
                lemma_world_index(i, x as int, y as int);
                vstd::seq_lib::lemma_seq_contains_after_push(before, (x as int, y as int), (i % 512, i / 512));
            }
        }
        assert(desired@ =~= Seq::new(
            world_cells() as nat,
            |i: int|
                if door_view(desired_doors@.take(k + 1)).contains((i % 512, i / 512)) {
                    TileKind::Door
                } else {
                    walls[i]
                },
        ));
        k = k + 1;
    }
    proof {
        assert(desired_doors@.take(desired_doors@.len() as int) =~= desired_doors@);
        assert forall|i: int| 0 <= i < world_cells() implies #[trigger] desired@[i] == desired_kind(
            g,
            i % 512,
            i / 512,
        ) by {
            lemma_painted_end(g, i % 512, i / 512);
        }
    }
    assert(desired@ =~= Seq::new(
        world_cells() as nat,
        |i: int| desired_kind(g, i % 512, i / 512),
    ));
    desired
}

} // verus!
