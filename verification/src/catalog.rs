//! The catalog of wall sprites: every neighbourhood of a tile that its
//! sprites depend on, the sprites each resolves to, the tables that list
//! them, and the constants that number the distinct sprites.
use crate::sheet::{contains_sprite, decimal, first_occurrences, push_char, push_decimal};
use crate::sprite::{resolve_sprites, resolved_sprites, BaseSprite, TileVariant, TopSprite};
use vstd::prelude::*;

verus! {

/// The number of neighbourhoods in the catalog: a center and its east,
/// south-east and south neighbours, each of every variant.
pub const NEIGHBOURHOODS: usize = 2401;

/// The first line of each table.
pub const TABLE_HEADER: &'static str = "result,center,east,south_east,south";

/// The `i`-th tile variant, in declaration order.
pub open spec fn variant_at(i: int) -> TileVariant {
    if i == 0 {
        TileVariant::Empty
    } else if i == 1 {
        TileVariant::Wall
    } else if i == 2 {
        TileVariant::Door
    } else if i == 3 {
        TileVariant::StairN
    } else if i == 4 {
        TileVariant::StairS
    } else if i == 5 {
        TileVariant::StairE
    } else {
        TileVariant::StairW
    }
}

/// The `k`-th neighbourhood: its center, east, south-east and south, each
/// counting through the variants in order, the south fastest.
pub open spec fn neighbourhood(k: int) -> (TileVariant, TileVariant, TileVariant, TileVariant) {
    (variant_at(k / 343), variant_at((k / 49) % 7), variant_at((k / 7) % 7), variant_at(k % 7))
}

/// The sprites of the `k`-th neighbourhood, with its north and north-east
/// empty.
#[verifier::opaque]
pub open spec fn neighbourhood_sprites(k: int) -> (BaseSprite, TopSprite) {
    let (c, e, se, s) = neighbourhood(k);
    resolved_sprites(c, TileVariant::Empty, TileVariant::Empty, e, se, s)
}

/// The base sprites of all neighbourhoods, in order.
pub open spec fn all_base_sprites() -> Seq<BaseSprite> {
    Seq::new(NEIGHBOURHOODS as nat, |k: int| neighbourhood_sprites(k).0)
}

/// The top sprites of all neighbourhoods, in order.
pub open spec fn all_top_sprites() -> Seq<TopSprite> {
    Seq::new(NEIGHBOURHOODS as nat, |k: int| neighbourhood_sprites(k).1)
}

/// An ASCII letter in upper case; any other character unchanged.
pub open spec fn ascii_upper(c: char) -> char {
    if 'a' <= c && c <= 'z' {
        ((c as u32) - 32) as char
    } else {
        c
    }
}

/// A text with its ASCII letters in upper case.
pub open spec fn uppercase(s: Seq<char>) -> Seq<char> {
    s.map_values(|c: char| ascii_upper(c))
}

/// The name of the constant that numbers a base sprite.
pub open spec fn base_const_name(b: BaseSprite) -> Seq<char> {
    if b == BaseSprite::blank() {
        "EMPTY"@
    } else {
        "BASE_"@ + uppercase(b.name_view())
    }
}

/// The name of the constant that numbers a top sprite.
pub open spec fn top_const_name(t: TopSprite) -> Seq<char> {
    if t == TopSprite::blank() {
        "EMPTY"@
    } else {
        "TOP_"@ + uppercase(t.name_view())
    }
}

/// The row of a table for the `k`-th neighbourhood, whose sprite's constant
/// is `name`.
pub open spec fn table_row(name: Seq<char>, k: int) -> Seq<char> {
    let (c, e, se, s) = neighbourhood(k);
    name + ","@ + c.name_view() + ","@ + e.name_view() + ","@ + se.name_view() + ","@
        + s.name_view() + "\n"@
}

/// The rows of the base table for the first `n` neighbourhoods.
pub open spec fn base_rows(n: nat) -> Seq<char>
    decreases n,
{
    if n == 0 {
        Seq::empty()
    } else {
        base_rows((n - 1) as nat) + table_row(
            base_const_name(neighbourhood_sprites(n - 1).0),
            n - 1,
        )
    }
}

/// The rows of the top table for the first `n` neighbourhoods.
pub open spec fn top_rows(n: nat) -> Seq<char>
    decreases n,
{
    if n == 0 {
        Seq::empty()
    } else {
        top_rows((n - 1) as nat) + table_row(top_const_name(neighbourhood_sprites(n - 1).1), n - 1)
    }
}

/// The line that declares the constant `name` with `value`.
pub open spec fn const_line(name: Seq<char>, value: nat) -> Seq<char> {
    "const "@ + name + ": u16 = "@ + decimal(value) + ";\n"@
}

/// The constants of the first `n` base sprites, each numbered by its
/// position; the empty sprite has none.
pub open spec fn base_consts(base: Seq<BaseSprite>, n: nat) -> Seq<char>
    decreases n,
{
    if n == 0 {
        Seq::empty()
    } else if base[n - 1] == BaseSprite::blank() {
        base_consts(base, (n - 1) as nat)
    } else {
        base_consts(base, (n - 1) as nat) + const_line(base_const_name(base[n - 1]), (n - 1) as nat)
    }
}

/// The constants of the first `n` top sprites, each numbered by its position
/// after the base sprites but the empty one; the empty sprite has none.
pub open spec fn top_consts(top: Seq<TopSprite>, base_len: nat, n: nat) -> Seq<char>
    decreases n,
{
    if n == 0 {
        Seq::empty()
    } else if top[n - 1] == TopSprite::blank() {
        top_consts(top, base_len, (n - 1) as nat)
    } else {
        top_consts(top, base_len, (n - 1) as nat) + const_line(
            top_const_name(top[n - 1]),
            (n - 1 + base_len - 1) as nat,
        )
    }
}

/// The text of the constants: the empty sprite numbered 0, then the other
/// base sprites, then the other top sprites.
pub open spec fn consts_text(base: Seq<BaseSprite>, top: Seq<TopSprite>) -> Seq<char> {
    const_line("EMPTY"@, 0) + base_consts(base, base.len()) + top_consts(top, base.len(), top.len())
}

/// The distinct sprites of all neighbourhoods, in order of first
/// appearance, and a table of each kind that lists every neighbourhood with
/// the constant of its sprite.
pub struct Catalog {
    pub base_sprites: Vec<BaseSprite>,
    pub top_sprites: Vec<TopSprite>,
    pub base_table: String,
    pub top_table: String,
}

/// Appends `t` with its ASCII letters in upper case.
fn push_uppercase(s: &mut String, t: &str)
    ensures
        final(s)@ == old(s)@ + uppercase(t@),
{
    let n = t.unicode_len();
    let mut k: usize = 0;
    while k < n
        invariant
            n == t@.len(),
            k <= n,
            s@ == old(s)@ + uppercase(t@.take(k as int)),
        decreases n - k,
    {
        let c = t.get_char(k);
        let u = if 'a' <= c && c <= 'z' {
            ((c as u8) - 32) as char
        } else {
            c
        };
        push_char(s, u);
        assert(uppercase(t@.take(k + 1)) =~= uppercase(t@.take(k as int)).push(u));
        k = k + 1;
    }
    assert(t@.take(n as int) =~= t@);
}

/// The name of the constant that numbers `b`.
fn base_const(b: &BaseSprite) -> (r: String)
    ensures
        r@ == base_const_name(*b),
{
    if *b == BaseSprite::EMPTY() {
        String::from_str("EMPTY")
    } else {
        let mut r = String::from_str("BASE_");
        let name = b.name();
        push_uppercase(&mut r, name.as_str());
        r
    }
}

/// The name of the constant that numbers `t`.
fn top_const(t: &TopSprite) -> (r: String)
    ensures
        r@ == top_const_name(*t),
{
    if *t == TopSprite::EMPTY() {
        String::from_str("EMPTY")
    } else {
        let mut r = String::from_str("TOP_");
        let name = t.name();
        push_uppercase(&mut r, name.as_str());
        r
    }
}

/// Appends the row of a table for a neighbourhood.
fn push_row(
    s: &mut String,
    name: &str,
    center: TileVariant,
    east: TileVariant,
    south_east: TileVariant,
    south: TileVariant,
)
    ensures
        final(s)@ == old(s)@ + name@ + ","@ + center.name_view() + ","@ + east.name_view() + ","@
            + south_east.name_view() + ","@ + south.name_view() + "\n"@,
{
    s.append(name);
    s.append(",");
    s.append(center.name());
    s.append(",");
    s.append(east.name());
    s.append(",");
    s.append(south_east.name());
    s.append(",");
    s.append(south.name());
    s.append("\n");
}

/// The `k`-th neighbourhood.
fn neighbourhood_at(k: usize) -> (r: (TileVariant, TileVariant, TileVariant, TileVariant))
    requires
        k < NEIGHBOURHOODS,
    ensures
        r == neighbourhood(k as int),
{
    let values = TileVariant::values();
    assert(forall|i: int| 0 <= i < 7 ==> values@[i] == #[trigger] variant_at(i));
    assert(k / 343 < 7);
    (values[k / 343], values[(k / 49) % 7], values[(k / 7) % 7], values[k % 7])
}

/// The sprites of the `k`-th neighbourhood and its rows in the two tables.
fn catalog_entry(k: usize) -> (r: (BaseSprite, TopSprite, String, String))
    requires
        k < NEIGHBOURHOODS,
    ensures
        (r.0, r.1) == neighbourhood_sprites(k as int),
        r.2@ == table_row(base_const_name(r.0), k as int),
        r.3@ == table_row(top_const_name(r.1), k as int),
{
    let (center, east, south_east, south) = neighbourhood_at(k);
    proof {
        reveal(neighbourhood_sprites);
    }
    let (base, top) = resolve_sprites(
        center,
        TileVariant::Empty,
        TileVariant::Empty,
        east,
        south_east,
        south,
    );
    let base_name = base_const(&base);
    let mut base_row = String::new();
    push_row(&mut base_row, base_name.as_str(), center, east, south_east, south);
    let top_name = top_const(&top);
    let mut top_row = String::new();
    push_row(&mut top_row, top_name.as_str(), center, east, south_east, south);
    (base, top, base_row, top_row)
}

/// Resolves the sprites of every neighbourhood of a tile whose north and
/// north-east are empty (its sprites do not depend on them), keeping each
/// distinct sprite in order of first appearance and listing every
/// neighbourhood in a table of each kind under the header.
pub fn catalog() -> (r: Catalog)
    ensures
        r.base_sprites@ == first_occurrences(all_base_sprites()),
        r.top_sprites@ == first_occurrences(all_top_sprites()),
        r.base_table@ == TABLE_HEADER@ + "\n"@ + base_rows(NEIGHBOURHOODS as nat),
        r.top_table@ == TABLE_HEADER@ + "\n"@ + top_rows(NEIGHBOURHOODS as nat),
{
    let ghost all_base = all_base_sprites();
    let ghost all_top = all_top_sprites();
    let mut base_sprites: Vec<BaseSprite> = Vec::new();
    let mut top_sprites: Vec<TopSprite> = Vec::new();
    let mut base_table = String::from_str(TABLE_HEADER);
    base_table.append("\n");
    let mut top_table = String::from_str(TABLE_HEADER);
    top_table.append("\n");
    let ghost head = TABLE_HEADER@ + "\n"@;
    let mut k: usize = 0;
    while k < NEIGHBOURHOODS
        invariant
            k <= NEIGHBOURHOODS,
            all_base == all_base_sprites(),
            all_top == all_top_sprites(),
            head == TABLE_HEADER@ + "\n"@,
            base_sprites@ == first_occurrences(all_base.take(k as int)),
            top_sprites@ == first_occurrences(all_top.take(k as int)),
            base_table@ == head + base_rows(k as nat),
            top_table@ == head + top_rows(k as nat),
        decreases NEIGHBOURHOODS - k,
    {
        let (base, top, base_row, top_row) = catalog_entry(k);
        base_table.append(base_row.as_str());
        top_table.append(top_row.as_str());
        assert(all_base.take(k + 1).drop_last() =~= all_base.take(k as int));
        assert(all_top.take(k + 1).drop_last() =~= all_top.take(k as int));
        if !contains_sprite(&base_sprites, &base) {
            base_sprites.push(base);
        }
        if !contains_sprite(&top_sprites, &top) {
            top_sprites.push(top);
        }
        k = k + 1;
    }
    assert(all_base.take(NEIGHBOURHOODS as int) =~= all_base);
    assert(all_top.take(NEIGHBOURHOODS as int) =~= all_top);
    Catalog { base_sprites, top_sprites, base_table, top_table }
}

/// Appends the line that declares the constant `name` with `value`.
fn push_const(s: &mut String, name: &str, value: u64)
    ensures
        final(s)@ == old(s)@ + const_line(name@, value as nat),
{
    s.append("const ");
    s.append(name);
    s.append(": u16 = ");
    push_decimal(s, value);
    s.append(";\n");
}

/// The constants that number the sprites of the sheet: the empty sprite 0,
/// each other base sprite its position, and each other top sprite its
/// position after the base sprites but the empty one.
pub fn sprite_consts(base: &[BaseSprite], top: &[TopSprite]) -> (r: String)
    requires
        base@.len() + top@.len() <= u64::MAX,
        base@.len() > 0 || top@.len() == 0 || top@[0] == TopSprite::blank(),
    ensures
        r@ == consts_text(base@, top@),
{
    let mut r = String::new();
    push_const(&mut r, "EMPTY", 0);
    let ghost first = r@;
    let mut i: usize = 0;
    while i < base.len()
        invariant
            i <= base@.len(),
            base@.len() + top@.len() <= u64::MAX,
            first == const_line("EMPTY"@, 0),
            r@ == first + base_consts(base@, i as nat),
        decreases base@.len() - i,
    {
        if base[i] != BaseSprite::EMPTY() {
            let name = base_const(&base[i]);
            push_const(&mut r, name.as_str(), i as u64);
        }
        i = i + 1;
    }
    let ghost middle = r@;
    let n = base.len();
    let mut i: usize = 0;
    while i < top.len()
        invariant
            i <= top@.len(),
            n == base@.len(),
            n + top@.len() <= u64::MAX,
            n > 0 || top@.len() == 0 || top@[0] == TopSprite::blank(),
            middle == first + base_consts(base@, n as nat),
            r@ == middle + top_consts(top@, n as nat, i as nat),
        decreases top@.len() - i,
    {
        if top[i] != TopSprite::EMPTY() {
            let name = top_const(&top[i]);
            let value = (i as u64) + (n as u64) - 1;
            push_const(&mut r, name.as_str(), value);
        }
        i = i + 1;
    }
    r
}

} // verus!
