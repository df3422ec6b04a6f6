//! The rendering of the spritesheet and the search for tiles that render
//! alike, which would show a rule of normalization missing.
use crate::sheet::{SPRITES_PER_ROW, TILE_HEIGHT, TILE_WIDTH};
use vstd::prelude::*;

verus! {

/// An image: its width and height in pixels and its pixels row by row,
/// four bytes each.
pub struct Pixels {
    pub width: usize,
    pub height: usize,
    pub data: Vec<u8>,
}

/// The width and height in whole pixels of the document `svg`, as usvg's
/// `Tree::from_str` under its default options reads them from the root
/// element and tiny-skia's `Size::to_int_size` rounds them, at least one
/// each; `None` where the parse fails.
pub uninterp spec fn svg_pixel_size(svg: Seq<char>) -> Option<(u32, u32)>;

/// Parses `svg` with usvg's `Tree::from_str` under its default options and
/// renders it with resvg's `render` onto a transparent tiny-skia `Pixmap`
/// of the tree's size rounded to whole pixels. The contract claims that
/// size, named, and the cases where `Pixmap::new` refuses it (four bytes a
/// pixel across a row beyond `i32::MAX`, or all the bytes beyond
/// `usize::MAX`), as its source shows; and that the pixels are four bytes
/// each, row by row. Which pixels come out is not stated: they can depend
/// on images read from disk.
#[verifier::external_body]
fn render_svg(svg: &str) -> (r: Option<Pixels>)
    ensures
        r is Some <==> (svg_pixel_size(svg@) matches Some((w, h)) && 4 * w <= i32::MAX && 4 * w * h
            <= usize::MAX),
        r matches Some(p) ==> (svg_pixel_size(svg@) matches Some((w, h)) && p.width == w
            && p.height == h),
        r matches Some(p) ==> p.data@.len() == 4 * p.width * p.height,
{
    let tree = resvg::usvg::Tree::from_str(svg, &resvg::usvg::Options::default()).ok()?;
    let size = tree.size().to_int_size();
    let mut pixmap = resvg::tiny_skia::Pixmap::new(size.width(), size.height())?;
    resvg::render(&tree, resvg::tiny_skia::Transform::identity(), &mut pixmap.as_mut());
    Some(Pixels {
        width: pixmap.width() as usize,
        height: pixmap.height() as usize,
        data: pixmap.take(),
    })
}

/// Renders the SVG document `svg` at its size in whole pixels; `None`
/// where it cannot be read or that size makes no image.
pub fn render_to_pixmap(svg: &str) -> (r: Option<Pixels>)
    ensures
        r is Some <==> (svg_pixel_size(svg@) matches Some((w, h)) && 4 * w <= i32::MAX && 4 * w * h
            <= usize::MAX),
        r matches Some(p) ==> (svg_pixel_size(svg@) matches Some((w, h)) && p.width == w
            && p.height == h),
        r matches Some(p) ==> p.data@.len() == 4 * p.width * p.height,
{
    render_svg(svg)
}

/// The number of bytes of a row of a tile.
pub open spec fn tile_row_bytes() -> nat {
    TILE_WIDTH as nat * 4
}

/// Where row `row` of the tile at grid position `index` starts in the data
/// of an image `width` pixels wide.
pub open spec fn tile_row_start(width: nat, index: nat, row: nat) -> nat {
    ((index / SPRITES_PER_ROW as nat) * TILE_HEIGHT as nat + row) * (width * 4) + (index
        % SPRITES_PER_ROW as nat) * tile_row_bytes()
}

/// Whether the tile at grid position `index` lies within the data of an
/// image `width` pixels wide holding `len` bytes.
pub open spec fn tile_in_image(len: nat, width: nat, index: nat) -> bool {
    tile_row_start(width, index, (TILE_HEIGHT - 1) as nat) + tile_row_bytes() <= len
}

/// The pixels of the first `n` rows of the tile at grid position `index`.
pub open spec fn tile_rows(data: Seq<u8>, width: nat, index: nat, n: nat) -> Seq<u8>
    decreases n,
{
    if n == 0 {
        Seq::empty()
    } else {
        let start = tile_row_start(width, index, (n - 1) as nat) as int;
        tile_rows(data, width, index, (n - 1) as nat) + data.subrange(
            start,
            start + tile_row_bytes(),
        )
    }
}

/// The pixels of the tile at grid position `index`, row by row.
pub open spec fn tile_pixels_of(p: Pixels, index: nat) -> Seq<u8> {
    tile_rows(p.data@, p.width as nat, index, TILE_HEIGHT as nat)
}

proof fn lemma_row_start_monotonic(width: nat, index: nat, row: nat, last: nat)
    requires
        row <= last,
    ensures
        tile_row_start(width, index, row) <= tile_row_start(width, index, last),
{
    let base = (index / SPRITES_PER_ROW as nat) * TILE_HEIGHT as nat;
    let stride = width * 4;
    assert((base + row) * stride <= (base + last) * stride) by (nonlinear_arith)
        requires
            row <= last,
    ;
}

/// The bounds that the arithmetic of a tile's rows stays within.
proof fn lemma_tile_bounds(len: nat, width: nat, height: nat, index: nat)
    requires
        len == 4 * width * height,
        tile_in_image(len, width, index),
    ensures
        width >= 1,
        width * 4 <= len,
        (index / SPRITES_PER_ROW as nat) * TILE_HEIGHT as nat + TILE_HEIGHT as nat <= len,
        (index % SPRITES_PER_ROW as nat) * tile_row_bytes() <= len,
{
    let base = (index / SPRITES_PER_ROW as nat) * TILE_HEIGHT as nat;
    let last = (TILE_HEIGHT - 1) as nat;
    let stride = width * 4;
    if width == 0 {
        assert(4 * width * height == 0) by (nonlinear_arith)
            requires
                width == 0,
        ;
    }
    assert(base + last <= (base + last) * stride) by (nonlinear_arith)
        requires
            stride >= 4,
    ;
    assert(stride <= (base + last) * stride) by (nonlinear_arith)
        requires
            stride >= 4,
            base + last >= 1,
    ;
}

/// The pixels of the tile at grid position `index` of the sheet.
pub fn tile_pixels(p: &Pixels, index: usize) -> (r: Vec<u8>)
    requires
        p.data@.len() == 4 * p.width * p.height,
        tile_in_image(p.data@.len(), p.width as nat, index as nat),
    ensures
        r@ == tile_pixels_of(*p, index as nat),
{
    let len = p.data.len();
    proof {
        lemma_tile_bounds(len as nat, p.width as nat, p.height as nat, index as nat);
    }
    let row_bytes: usize = 800;
    let stride = p.width * 4;
    let column = index % 16;
    assert(column * 800 <= 12000) by (nonlinear_arith)
        requires
            column < 16,
    ;
    let tile_x = column * row_bytes;
    let tile_y = (index / 16) * 400;
    let mut r: Vec<u8> = Vec::new();
    let mut row: usize = 0;
    while row < 400
        invariant
            row <= 400,
            len == p.data@.len(),
            tile_in_image(p.data@.len(), p.width as nat, index as nat),
            row_bytes == tile_row_bytes(),
            stride == p.width * 4,
            tile_x == (index as nat % SPRITES_PER_ROW as nat) * tile_row_bytes(),
            tile_y == (index as nat / SPRITES_PER_ROW as nat) * TILE_HEIGHT as nat,
            tile_y + 400 <= len,
            r@ == tile_rows(p.data@, p.width as nat, index as nat, row as nat),
        decreases 400 - row,
    {
        proof {
            lemma_row_start_monotonic(p.width as nat, index as nat, row as nat, (TILE_HEIGHT - 1) as nat);
            assert((tile_y + row) * stride <= (tile_y + row) * stride + tile_x);
        }
        let start = (tile_y + row) * stride + tile_x;
        let bytes = vstd::slice::slice_subrange(p.data.as_slice(), start, start + row_bytes);
        let mut k: usize = 0;
        let ghost before = r@;
        while k < bytes.len()
            invariant
                k <= bytes@.len(),
                r@ == before + bytes@.take(k as int),
            decreases bytes@.len() - k,
        {
            r.push(bytes[k]);
            assert(bytes@.take(k + 1) =~= bytes@.take(k as int).push(bytes@[k as int]));
            k = k + 1;
        }
        assert(bytes@.take(bytes@.len() as int) =~= bytes@);
        row = row + 1;
    }
    r
}

/// Whether the position `i` holds the same pixels as `j`.
pub open spec fn same_as(blocks: Seq<Seq<u8>>, j: int) -> spec_fn(int) -> bool {
    |i: int| blocks[i] == blocks[j]
}

/// The positions among `blocks` that hold the same pixels as the one at
/// `j`, in order.
pub open spec fn alike(blocks: Seq<Seq<u8>>, j: int) -> Seq<int> {
    Seq::new(blocks.len(), |i: int| i).filter(same_as(blocks, j))
}

/// Whether `j` is the first of at least two positions holding the same
/// pixels.
pub open spec fn leads_group(blocks: Seq<Seq<u8>>) -> spec_fn(int) -> bool {
    |j: int| alike(blocks, j)[0] == j && alike(blocks, j).len() > 1
}

/// The groups of positions among `blocks` that hold the same pixels, at
/// least two each, in the order of their first positions.
pub open spec fn duplicate_groups(blocks: Seq<Seq<u8>>) -> Seq<Seq<int>> {
    Seq::new(blocks.len(), |j: int| j).filter(leads_group(blocks)).map_values(
        |j: int| alike(blocks, j),
    )
}

/// The pixels of `count` tiles of the sheet from grid position `first_index`
/// on.
pub open spec fn tile_blocks(p: Pixels, count: nat, first_index: nat) -> Seq<Seq<u8>> {
    Seq::new(count, |j: int| tile_pixels_of(p, (first_index + j) as nat))
}

/// Whether two byte strings are equal.
fn same_bytes(a: &Vec<u8>, b: &Vec<u8>) -> (r: bool)
    ensures
        r == (a@ == b@),
{
    if a.len() != b.len() {
        return false;
    }
    let mut k: usize = 0;
    while k < a.len()
        invariant
            k <= a@.len(),
            a@.len() == b@.len(),
            a@.take(k as int) == b@.take(k as int),
        decreases a@.len() - k,
    {
        if a[k] != b[k] {
            assert(a@[k as int] != b@[k as int]);
            return false;
        }
        assert(a@.take(k + 1) =~= a@.take(k as int).push(a@[k as int]));
        assert(b@.take(k + 1) =~= b@.take(k as int).push(b@[k as int]));
        k = k + 1;
    }
    assert(a@.take(a@.len() as int) =~= a@);
    assert(b@.take(b@.len() as int) =~= b@);
    true
}

/// Positions as integers.
pub open spec fn positions(v: Seq<usize>) -> Seq<int> {
    v.map_values(|i: usize| i as int)
}

/// The positions among `blocks` that hold the same pixels as the one at `j`.
fn alike_positions(blocks: &Vec<Vec<u8>>, j: usize) -> (r: Vec<usize>)
    requires
        j < blocks@.len(),
    ensures
        positions(r@) == alike(blocks@.map_values(|b: Vec<u8>| b@), j as int),
{
    let ghost views = blocks@.map_values(|b: Vec<u8>| b@);
    let ghost pred = same_as(views, j as int);
    let mut r: Vec<usize> = Vec::new();
    let mut i: usize = 0;
    while i < blocks.len()
        invariant
            i <= blocks@.len(),
            j < blocks@.len(),
            views == blocks@.map_values(|b: Vec<u8>| b@),
            pred == same_as(views, j as int),
            positions(r@) == Seq::new(i as nat, |k: int| k).filter(pred),
        decreases blocks@.len() - i,
    {
        let ghost before = positions(r@);
        let ghost next = Seq::new((i + 1) as nat, |k: int| k);
        assert(next.drop_last() =~= Seq::new(i as nat, |k: int| k));
        assert(next.last() == i);
        assert(next.filter(pred) == if pred(i as int) {
            next.drop_last().filter(pred).push(i as int)
        } else {
            next.drop_last().filter(pred)
        }) by {
            reveal(Seq::filter);
        }
        assert(pred(i as int) == (views[i as int] == views[j as int]));
        assert(views[i as int] == blocks@[i as int]@);
        assert(views[j as int] == blocks@[j as int]@);
        if same_bytes(&blocks[i], &blocks[j]) {
            r.push(i);
            assert(positions(r@) =~= before.push(i as int));
        } else {
            assert(positions(r@) =~= before);
        }
        i = i + 1;
    }
    r
}

/// The groups of tiles, among `count` tiles of the sheet from grid position
/// `first_index` on, that render to the same pixels: each at least two
/// tiles, given by their offsets from `first_index` in order, the groups in
/// the order of their first tiles.
pub fn visual_duplicates(p: &Pixels, count: usize, first_index: usize) -> (r: Vec<Vec<usize>>)
    requires
        p.data@.len() == 4 * p.width * p.height,
        first_index + count <= usize::MAX,
        forall|j: int|
            0 <= j < count ==> tile_in_image(p.data@.len(), p.width as nat, #[trigger] (first_index + j) as nat),
    ensures
        r@.map_values(|g: Vec<usize>| positions(g@)) == duplicate_groups(
            tile_blocks(*p, count as nat, first_index as nat),
        ),
{
    let ghost target = tile_blocks(*p, count as nat, first_index as nat);
    let mut blocks: Vec<Vec<u8>> = Vec::new();
    let mut j: usize = 0;
    while j < count
        invariant
            j <= count,
            first_index + count <= usize::MAX,
            p.data@.len() == 4 * p.width * p.height,
            forall|i: int|
                0 <= i < count ==> tile_in_image(p.data@.len(), p.width as nat, #[trigger] (first_index + i) as nat),
            target == tile_blocks(*p, count as nat, first_index as nat),
            blocks@.map_values(|b: Vec<u8>| b@) == target.take(j as int),
        decreases count - j,
    {
        assert(tile_in_image(p.data@.len(), p.width as nat, (first_index + j) as nat));
        let b = tile_pixels(p, first_index + j);
        assert(b@ == target[j as int]);
        let ghost before = blocks@.map_values(|b: Vec<u8>| b@);
        blocks.push(b);
        assert(blocks@.map_values(|b: Vec<u8>| b@) =~= before.push(target[j as int]));
        assert(blocks@.map_values(|b: Vec<u8>| b@) =~= target.take(j + 1));
        j = j + 1;
    }
    assert(blocks@.map_values(|b: Vec<u8>| b@) =~= target);
    let ghost lead = leads_group(target);
    let mut groups: Vec<Vec<usize>> = Vec::new();
    let mut j: usize = 0;
    while j < count
        invariant
            j <= count,
            count == blocks@.len(),
            blocks@.map_values(|b: Vec<u8>| b@) == target,
            lead == leads_group(target),
            groups@.map_values(|g: Vec<usize>| positions(g@)) == Seq::new(j as nat, |k: int| k).filter(
                lead,
            ).map_values(|k: int| alike(target, k)),
        decreases count - j,
    {
        let members = alike_positions(&blocks, j);
        let ghost before = groups@.map_values(|g: Vec<usize>| positions(g@));
        let ghost next = Seq::new((j + 1) as nat, |k: int| k);
        assert(next.drop_last() =~= Seq::new(j as nat, |k: int| k));
        assert(next.last() == j);
        assert(next.filter(lead) == if lead(j as int) {
            next.drop_last().filter(lead).push(j as int)
        } else {
            next.drop_last().filter(lead)
        }) by {
            reveal(Seq::filter);
        }
        assert(positions(members@) == alike(target, j as int));
        if members.len() > 1 && members[0] == j {
            groups.push(members);
            assert(groups@.map_values(|g: Vec<usize>| positions(g@)) =~= before.push(alike(target, j as int)));
        } else {
            assert(groups@.map_values(|g: Vec<usize>| positions(g@)) =~= before);
        }
        j = j + 1;
    }
    groups
}

} // verus!
