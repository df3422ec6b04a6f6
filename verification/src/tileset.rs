//! The tileset: the tiles of several images, each `TILE_WIDTH` by
//! `TILE_HEIGHT` pixels, stacked in one column in the order of the images
//! and, within an image, row by row.
use crate::render::Pixels;
use vstd::arithmetic::div_mod::lemma_fundamental_div_mod_converse;
use vstd::arithmetic::div_mod::lemma_fundamental_div_mod;
use vstd::prelude::*;

verus! {

/// The width of a tile in pixels.
pub const TILE_WIDTH: usize = 32;

/// The height of a tile in pixels.
pub const TILE_HEIGHT: usize = 64;

/// The number of bytes of a row of a tile: `TILE_WIDTH` pixels of four
/// bytes.
#[verifier::inline]
pub open spec fn row_bytes() -> nat {
    128
}

/// The number of bytes of a tile: `TILE_HEIGHT` rows.
#[verifier::inline]
pub open spec fn tile_bytes() -> nat {
    8192
}

/// The number of whole tiles across an image.
pub open spec fn tiles_across(p: Pixels) -> nat {
    p.width as nat / TILE_WIDTH as nat
}

/// The number of whole tiles of an image; a partial tile at the right or
/// the bottom edge is left out.
pub open spec fn tiles_of(p: Pixels) -> nat {
    tiles_across(p) * (p.height as nat / TILE_HEIGHT as nat)
}

/// Byte `k` of row `y` of tile `t` of `src`, the tiles counted row by row.
pub open spec fn tile_byte(src: Pixels, t: nat, y: nat, k: nat) -> u8 {
    let across = tiles_across(src);
    src.data@[((((t / across) * TILE_HEIGHT as nat + y) * src.width as nat + (t % across)
        * TILE_WIDTH as nat) * 4 + k) as int]
}

/// The place that byte `i` of an image whose rows hold `stride` bytes takes
/// in the tiles stacked in its first column from tile `first` on: the
/// number of bytes that come before it in the order of copying, or `None`
/// where it lies outside that column or above tile `first`.
pub open spec fn copy_order(i: int, stride: nat, first: nat) -> Option<nat> {
    let row = i / stride as int;
    let k = i % stride as int;
    let slot = row / TILE_HEIGHT as int;
    let y = row % TILE_HEIGHT as int;
    if stride > 0 && k < row_bytes() && first <= slot {
        Some(((slot - first) * tile_bytes() + y * row_bytes() + k) as nat)
    } else {
        None
    }
}

/// The byte that comes `n` bytes from the start in the order of copying the
/// tiles of `src`.
pub open spec fn byte_at(src: Pixels, n: nat) -> u8 {
    tile_byte(
        src,
        n / tile_bytes(),
        (n % tile_bytes()) / row_bytes(),
        (n % tile_bytes()) % row_bytes(),
    )
}

/// `out`, the data of an image `out_width` pixels wide, once the first
/// `count` bytes in the order of copying the tiles of `src` have been
/// written into its first column from tile `first` on.
pub open spec fn with_copied(out: Seq<u8>, out_width: nat, src: Pixels, first: nat, count: int) -> Seq<
    u8,
> {
    Seq::new(
        out.len(),
        |i: int|
            match copy_order(i, out_width * 4, first) {
                Some(n) => if n < count {
                    byte_at(src, n)
                } else {
                    out[i]
                },
                None => out[i],
            },
    )
}

/// `out`, the data of an image `out_width` pixels wide, once every tile of
/// `src` has been copied into its first column from tile `first` on.
pub open spec fn with_tiles(out: Seq<u8>, out_width: nat, src: Pixels, first: nat) -> Seq<u8> {
    with_copied(out, out_width, src, first, (tiles_of(src) * tile_bytes()) as int)
}

/// Where byte `k` of row `y` of tile `t` of the copy lands.
spec fn dest_index(stride: nat, first: nat, t: nat, y: nat, k: nat) -> int {
    (((first + t) * TILE_HEIGHT as nat + y) * stride + k) as int
}

/// Writing one more byte in the order of copying changes the image at one
/// place only.
proof fn lemma_copy_step(out: Seq<u8>, out_width: nat, src: Pixels, first: nat, t: nat, y: nat, k: nat)
    requires
        out_width >= TILE_WIDTH,
        y < TILE_HEIGHT,
        k < row_bytes(),
        0 <= dest_index(out_width * 4, first, t, y, k) < out.len(),
    ensures
        with_copied(out, out_width, src, first, (t * tile_bytes() + y * row_bytes() + k + 1) as int)
            == with_copied(out, out_width, src, first, (t * tile_bytes() + y * row_bytes() + k) as int).update(
            dest_index(out_width * 4, first, t, y, k),
            tile_byte(src, t, y, k),
        ),
{
    let stride = out_width * 4;
    let count = t * tile_bytes() + y * row_bytes() + k;
    let i0 = dest_index(stride, first, t, y, k);
    let row0 = (first + t) * TILE_HEIGHT as nat + y;
    lemma_fundamental_div_mod_converse(i0, stride as int, row0 as int, k as int);
    lemma_fundamental_div_mod_converse(row0 as int, TILE_HEIGHT as int, (first + t) as int, y as int);
    assert(copy_order(i0, stride, first) == Some(count));
    let yk = y * row_bytes() + k;
    lemma_fundamental_div_mod_converse(yk as int, row_bytes() as int, y as int, k as int);
    lemma_fundamental_div_mod_converse(count as int, tile_bytes() as int, t as int, yk as int);
    assert(byte_at(src, count) == tile_byte(src, t, y, k));
    let before = with_copied(out, out_width, src, first, count as int);
    let after = with_copied(out, out_width, src, first, count + 1 as int);
    assert forall|i: int| 0 <= i < out.len() implies #[trigger] after[i] == before.update(
        i0,
        tile_byte(src, t, y, k),
    )[i] by {
        if i != i0 {
            match copy_order(i, stride, first) {
                Some(n) => {
                    if n == count {
                        let row = i / stride as int;
                        let kk = i % stride as int;
                        let slot = row / TILE_HEIGHT as int;
                        let yy = row % TILE_HEIGHT as int;
                        lemma_fundamental_div_mod(i, stride as int);
                        lemma_fundamental_div_mod(row, TILE_HEIGHT as int);
                        let yk2 = yy * row_bytes() + kk;
                        assert(0 <= yk2 < tile_bytes()) by (nonlinear_arith)
                            requires
                                0 <= yy < 64,
                                0 <= kk < 128,
                                yk2 == yy * 128 + kk,
                        ;
                        lemma_fundamental_div_mod_converse(
                            count as int,
                            tile_bytes() as int,
                            slot - first,
                            yk2,
                        );
                        lemma_fundamental_div_mod_converse(yk2, row_bytes() as int, yy, kk);
                        assert(i == i0) by (nonlinear_arith)
                            requires
                                i == row * stride + kk,
                                row == 64 * slot + yy,
                                slot - first == t,
                                yy == y,
                                kk == k,
                                i0 == ((first + t) * 64 + y) * stride + k,
                        ;
                    }
                },
                None => {},
            }
        }
    }
    assert(after =~= before.update(i0, tile_byte(src, t, y, k)));
}

/// The bounds that the indices of a copy stay within.
proof fn lemma_copy_bounds(
    src: Pixels,
    out_len: nat,
    out_width: nat,
    out_height: nat,
    first: nat,
    t: nat,
    y: nat,
    k: nat,
)
    requires
        src.data@.len() == 4 * src.width * src.height,
        out_len == 4 * out_width * out_height,
        out_width >= TILE_WIDTH,
        (first + tiles_of(src)) * TILE_HEIGHT as nat <= out_height,
        t < tiles_of(src),
        y < TILE_HEIGHT,
        k < row_bytes(),
    ensures
        tiles_across(src) > 0,
        0 <= dest_index(out_width * 4, first, t, y, k) < out_len,
        0 <= (((t / tiles_across(src)) * TILE_HEIGHT as nat + y) * src.width as nat + (t
            % tiles_across(src)) * TILE_WIDTH as nat) * 4 + k < src.data@.len(),
{
    let across = tiles_across(src);
    let down = src.height as nat / TILE_HEIGHT as nat;
    let w = src.width as nat;
    let h = src.height as nat;
    assert(across > 0 && down > 0) by (nonlinear_arith)
        requires
            t < across * down,
    ;
    let ty = t / across;
    let tx = t % across;
    lemma_fundamental_div_mod(t as int, across as int);
    lemma_fundamental_div_mod(w as int, TILE_WIDTH as int);
    lemma_fundamental_div_mod(h as int, TILE_HEIGHT as int);
    assert(ty < down) by (nonlinear_arith)
        requires
            t == across * ty + tx,
            0 <= tx,
            t < across * down,
    ;
    let row = ty * 64 + y;
    assert(row < h && tx * 32 + 32 <= w) by (nonlinear_arith)
        requires
            row == ty * 64 + y,
            ty < down,
            y < 64,
            tx < across,
            h == 64 * down + h % 64,
            h % 64 >= 0,
            w == 32 * across + w % 32,
            w % 32 >= 0,
    ;
    assert((row * w + tx * 32) * 4 + k < 4 * w * h) by (nonlinear_arith)
        requires
            row == ty * 64 + y,
            row < h,
            tx * 32 + 32 <= w,
            k < 128,
    ;
    let stride = out_width * 4;
    assert(((first + t) * 64 + y) * stride + k < 4 * out_width * out_height) by (nonlinear_arith)
        requires
            (first + t) * 64 + y < out_height,
            k < 128,
            stride == out_width * 4,
            out_width >= 32,
    {
        assert(((first + t) * 64 + y) * stride + k < ((first + t) * 64 + y + 1) * stride);
        assert(((first + t) * 64 + y + 1) * stride <= out_height * stride);
    }
    assert((first + t) * 64 + y < out_height) by (nonlinear_arith)
        requires
            t < tiles_of(src),
            y < 64,
            (first + tiles_of(src)) * 64 <= out_height,
    ;
}

/// Copies every whole tile of `source`, row by row, into the first column
/// of `output` from tile `*current_tile` on, and advances `*current_tile`
/// past them.
pub fn copy_tiles_to_output(source: &Pixels, output: &mut Pixels, current_tile: &mut u32)
    requires
        source.data@.len() == 4 * source.width * source.height,
        old(output).data@.len() == 4 * old(output).width * old(output).height,
        tiles_of(*source) > 0 ==> old(output).width >= TILE_WIDTH && (*old(current_tile)
            + tiles_of(*source)) * TILE_HEIGHT as nat <= old(output).height && *old(current_tile)
            + tiles_of(*source) <= u32::MAX,
    ensures
        final(output).width == old(output).width,
        final(output).height == old(output).height,
        *final(current_tile) == *old(current_tile) + tiles_of(*source),
        final(output).data@ == with_tiles(
            old(output).data@,
            old(output).width as nat,
            *source,
            *old(current_tile) as nat,
        ),
{
    let tiles_x = source.width / TILE_WIDTH;
    let tiles_y = source.height / TILE_HEIGHT;
    let source_len = source.data.len();
    let ghost old_data = output.data@;
    let ghost first = *current_tile as nat;
    let ghost n = tiles_of(*source);
    let ghost out_width = output.width as nat;
    let ghost out_height = output.height as nat;
    assert(with_copied(old_data, out_width, *source, first, 0) =~= old_data);
    let mut tile_y: usize = 0;
    while tile_y < tiles_y
        invariant
            tiles_x == tiles_across(*source),
            tiles_y == source.height / TILE_HEIGHT,
            n == tiles_x * tiles_y,
            tile_y <= tiles_y,
            source.data@.len() == 4 * source.width * source.height,
            source_len == source.data@.len(),
            output.data@.len() == 4 * output.width * output.height,
            out_width == output.width,
            out_height == output.height,
            n == tiles_of(*source),
            old_data.len() == output.data@.len(),
            n > 0 ==> output.width >= TILE_WIDTH && (first + n) * TILE_HEIGHT as nat
                <= output.height && first + n <= u32::MAX,
            *current_tile == first + tile_y * tiles_x,
            output.data@ == with_copied(
                old_data,
                out_width,
                *source,
                first,
                tile_y * tiles_x * 8192,
            ),
        decreases tiles_y - tile_y,
    {
        let mut tile_x: usize = 0;
        while tile_x < tiles_x
            invariant
                tiles_x == tiles_across(*source),
                n == tiles_x * tiles_y,
                tile_y < tiles_y,
                tile_x <= tiles_x,
                source.data@.len() == 4 * source.width * source.height,
                source_len == source.data@.len(),
            source_len == source.data@.len(),
                output.data@.len() == 4 * output.width * output.height,
                out_width == output.width,
                out_height == output.height,
                n == tiles_of(*source),
            out_height == output.height,
            n == tiles_of(*source),
                old_data.len() == output.data@.len(),
                n > 0 ==> output.width >= TILE_WIDTH && (first + n) * TILE_HEIGHT as nat
                    <= output.height && first + n <= u32::MAX,
                *current_tile == first + tile_y * tiles_x + tile_x,
                output.data@ == with_copied(
                    old_data,
                    out_width,
                    *source,
                    first,
                    (tile_y * tiles_x + tile_x) * 8192,
                ),
            decreases tiles_x - tile_x,
        {
            let ghost t = (tile_y * tiles_x + tile_x) as nat;
            proof {
                lemma_fundamental_div_mod_converse(t as int, tiles_x as int, tile_y as int, tile_x as int);
                assert(t < n) by (nonlinear_arith)
                    requires
                        t == tile_y * tiles_x + tile_x,
                        tile_y < tiles_y,
                        tile_x < tiles_x,
                        n == tiles_x * tiles_y,
                ;
                assert((first + t) * 64 + 64 <= output.height) by (nonlinear_arith)
                    requires
                        t < n,
                        (first + n) * 64 <= output.height,
                ;
                assert(output.width * 4 <= output.data@.len()) by (nonlinear_arith)
                    requires
                        output.data@.len() == 4 * output.width * output.height,
                        output.height >= 1,
                ;
            }
            let out_len = output.data.len();
            assert(output.width * 4 <= out_len);
            let stride = output.width * 4;
            let dest_y = *current_tile as usize * TILE_HEIGHT;
            let mut y: usize = 0;
            while y < TILE_HEIGHT
                invariant
                    tiles_x == tiles_across(*source),
                    t < n,
                    tile_y == t / tiles_x as nat,
                    tile_x == t % tiles_x as nat,
                    y <= TILE_HEIGHT,
                    source.data@.len() == 4 * source.width * source.height,
                    source_len == source.data@.len(),
                source_len == source.data@.len(),
            source_len == source.data@.len(),
                    output.data@.len() == 4 * output.width * output.height,
                    out_width == output.width,
                    out_height == output.height,
                    n == tiles_of(*source),
                out_height == output.height,
                n == tiles_of(*source),
            out_height == output.height,
            n == tiles_of(*source),
                    stride == output.width * 4,
                    old_data.len() == output.data@.len(),
                    output.width >= TILE_WIDTH,
                    (first + n) * TILE_HEIGHT as nat <= output.height,
                    dest_y == (first + t) * TILE_HEIGHT,
                    output.data@ == with_copied(old_data, out_width, *source, first, t * 8192 + y * 128),
                decreases TILE_HEIGHT - y,
            {
                let mut k: usize = 0;
                while k < 128
                    invariant
                        tiles_x == tiles_across(*source),
                        t < n,
                        tile_y == t / tiles_x as nat,
                        tile_x == t % tiles_x as nat,
                        y < TILE_HEIGHT,
                        k <= 128,
                        source.data@.len() == 4 * source.width * source.height,
                        source_len == source.data@.len(),
                    source_len == source.data@.len(),
                source_len == source.data@.len(),
            source_len == source.data@.len(),
                        output.data@.len() == 4 * output.width * output.height,
                        out_width == output.width,
                        out_height == output.height,
                        n == tiles_of(*source),
                    out_height == output.height,
                    n == tiles_of(*source),
                out_height == output.height,
                n == tiles_of(*source),
            out_height == output.height,
            n == tiles_of(*source),
                        stride == output.width * 4,
                        old_data.len() == output.data@.len(),
                        output.width >= TILE_WIDTH,
                        (first + n) * TILE_HEIGHT as nat <= output.height,
                        dest_y == (first + t) * TILE_HEIGHT,
                        output.data@ == with_copied(
                            old_data,
                            out_width,
                            *source,
                            first,
                            t * 8192 + y * 128 + k,
                        ),
                    decreases 128 - k,
                {
                    proof {
                        lemma_copy_bounds(
                            *source,
                            output.data@.len(),
                            output.width as nat,
                            output.height as nat,
                            first,
                            t,
                            y as nat,
                            k as nat,
                        );
                        lemma_copy_step(old_data, out_width, *source, first, t, y as nat, k as nat);
                    }
                    let out_len = output.data.len();
                    let source_x = tile_x * TILE_WIDTH;
                    let source_y = tile_y * TILE_HEIGHT + y;
                    let from = (source_y * source.width + source_x) * 4 + k;
                    let to = (dest_y + y) * stride + k;
                    let b = source.data[from];
                    output.data.set(to, b);
                    k = k + 1;
                }
                y = y + 1;
            }
            *current_tile = *current_tile + 1;
            tile_x = tile_x + 1;
        }
        assert((tile_y + 1) * tiles_x == tile_y * tiles_x + tiles_x) by (nonlinear_arith);
        tile_y = tile_y + 1;
    }
    assert(tiles_y * tiles_x == n) by (nonlinear_arith)
        requires
            n == tiles_x * tiles_y,
    ;
}

/// The number of whole tiles of the first `m` images.
pub open spec fn tiles_before(images: Seq<Pixels>, m: nat) -> nat
    decreases m,
{
    if m == 0 {
        0
    } else {
        tiles_before(images, (m - 1) as nat) + tiles_of(images[m - 1])
    }
}

/// `blank` once the tiles of the first `m` images have been stacked in it,
/// the tiles of each image right after those of the one before.
pub open spec fn stacked(blank: Seq<u8>, images: Seq<Pixels>, m: nat) -> Seq<u8>
    decreases m,
{
    if m == 0 {
        blank
    } else {
        with_tiles(
            stacked(blank, images, (m - 1) as nat),
            TILE_WIDTH as nat,
            images[m - 1],
            tiles_before(images, (m - 1) as nat),
        )
    }
}

proof fn lemma_tiles_before_monotonic(images: Seq<Pixels>, m: nat, last: nat)
    requires
        m <= last,
    ensures
        tiles_before(images, m) <= tiles_before(images, last),
    decreases last - m,
{
    if m < last {
        lemma_tiles_before_monotonic(images, m, (last - 1) as nat);
    }
}

/// The tileset of `images`: an image one tile wide, transparent where no
/// tile lands, with the whole tiles of each image stacked in it, row by
/// row, after those of the images before.
pub fn tileset(images: &Vec<Pixels>) -> (r: Pixels)
    requires
        forall|m: int|
            0 <= m < images@.len() ==> #[trigger] images@[m].data@.len() == 4 * images@[m].width
                * images@[m].height,
        tiles_before(images@, images@.len()) * TILE_HEIGHT as nat <= u32::MAX,
        tiles_before(images@, images@.len()) * tile_bytes() <= usize::MAX,
    ensures
        r.width == TILE_WIDTH,
        r.height == tiles_before(images@, images@.len()) * TILE_HEIGHT as nat,
        r.data@ == stacked(
            Seq::new(tiles_before(images@, images@.len()) * tile_bytes(), |i: int| 0u8),
            images@,
            images@.len(),
        ),
{
    let ghost total = tiles_before(images@, images@.len());
    let mut total_tiles: u32 = 0;
    let mut m: usize = 0;
    while m < images.len()
        invariant
            m <= images@.len(),
            total == tiles_before(images@, images@.len()),
            total * TILE_HEIGHT as nat <= u32::MAX,
            total_tiles == tiles_before(images@, m as nat),
        decreases images@.len() - m,
    {
        proof {
            lemma_tiles_before_monotonic(images@, (m + 1) as nat, images@.len());
        }
        let img = &images[m];
        assert(tiles_of(*img) <= u32::MAX);
        let tiles = (img.width / TILE_WIDTH) * (img.height / TILE_HEIGHT);
        total_tiles = total_tiles + tiles as u32;
        m = m + 1;
    }
    let height = total_tiles as usize * TILE_HEIGHT;
    let len = height * 128;
    let ghost blank = Seq::new(total * tile_bytes(), |i: int| 0u8);
    let mut data: Vec<u8> = Vec::new();
    while data.len() < len
        invariant
            len == total * tile_bytes(),
            data@ =~= Seq::new(data@.len(), |i: int| 0u8),
            data@.len() <= len,
        decreases len - data@.len(),
    {
        data.push(0);
    }
    assert(data@ =~= blank);
    assert(4 * 32 * (total * 64) == total * 8192) by (nonlinear_arith);
    let mut output = Pixels { width: TILE_WIDTH, height, data };
    let mut current_tile: u32 = 0;
    let mut m: usize = 0;
    while m < images.len()
        invariant
            m <= images@.len(),
            forall|j: int|
                0 <= j < images@.len() ==> #[trigger] images@[j].data@.len() == 4
                    * images@[j].width * images@[j].height,
            total == tiles_before(images@, images@.len()),
            total * TILE_HEIGHT as nat <= u32::MAX,
            output.width == TILE_WIDTH,
            output.height == total * TILE_HEIGHT as nat,
            output.data@.len() == 4 * output.width * output.height,
            current_tile == tiles_before(images@, m as nat),
            output.data@ == stacked(blank, images@, m as nat),
        decreases images@.len() - m,
    {
        proof {
            lemma_tiles_before_monotonic(images@, (m + 1) as nat, images@.len());
        }
        copy_tiles_to_output(&images[m], &mut output, &mut current_tile);
        m = m + 1;
    }
    output
}

} // verus!
