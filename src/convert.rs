use vstd::arithmetic::div_mod::{lemma_fundamental_div_mod, lemma_fundamental_div_mod_converse};
use vstd::prelude::*;
use crate::color::{is_luminance, lemma_luma_of, luma_of, RasciiColor};
use crate::glyph::{glyph_for, select_glyph};
use crate::pixels::PixelGrid;

verus! {

/// Rows of cells, top to bottom; each row's cells left to right.
pub type RasciiOutput = Vec<Vec<(char, RasciiColor)>>;

/// Why a conversion was refused.
#[derive(Clone, Copy, Debug, PartialEq, Eq, Structural)]
pub enum AsciiError {
    /// Fewer than two columns or rows of tiles were asked for, or more tiles
    /// than the image has pixels across or down.
    InvalidDimension,
}

/// `dim` (columns, rows of tiles) cannot be cut from a `width` by `height`
/// image: fewer than two in either direction, or a tile would be empty.
pub open spec fn invalid_dimensions(width: nat, height: nat, dim: (u32, u32)) -> bool {
    ||| dim.0 < 2
    ||| dim.1 < 2
    ||| width / (dim.0 as nat) == 0
    ||| height / (dim.1 as nat) == 0
}

/// The pixels of the `w` by `h` rectangle whose top-left pixel is `(x0, y0)`,
/// row after row.
pub open spec fn rect_pixels(img: PixelGrid, x0: int, y0: int, w: nat, h: nat) -> Seq<(u8, u8, u8)> {
    Seq::new(w * h, |i: int| img.spec_pixel(x0 + i % (w as int), y0 + i / (w as int)))
}

/// Channel `k` of an RGB triple: red for 0, green for 1, blue otherwise.
pub open spec fn channel(p: (u8, u8, u8), k: int) -> int {
    if k == 0 {
        p.0 as int
    } else if k == 1 {
        p.1 as int
    } else {
        p.2 as int
    }
}

/// Sum of channel `k` over `s`.
pub open spec fn channel_sum(s: Seq<(u8, u8, u8)>, k: int) -> int
    decreases s.len(),
{
    if s.len() == 0 {
        0
    } else {
        channel_sum(s.drop_last(), k) + channel(s.last(), k)
    }
}

/// Sum of the brightness that `f` gives to each triple of `s`.
pub open spec fn luma_sum<L: Fn(u8, u8, u8) -> u8>(f: L, s: Seq<(u8, u8, u8)>) -> int
    decreases s.len(),
{
    if s.len() == 0 {
        0
    } else {
        luma_sum(f, s.drop_last()) + luma_of(f, s.last()) as int
    }
}

/// The colour that stands for the pixels `s`: the floor of the mean of each
/// channel, or, without colour, the floor of the mean brightness.
pub open spec fn mean_color<L: Fn(u8, u8, u8) -> u8>(s: Seq<(u8, u8, u8)>, color: bool, f: L) -> RasciiColor {
    let n = s.len() as int;
    if color {
        RasciiColor::RGB(
            (channel_sum(s, 0) / n) as u8,
            (channel_sum(s, 1) / n) as u8,
            (channel_sum(s, 2) / n) as u8,
        )
    } else {
        RasciiColor::Grayscale((luma_sum(f, s) / n) as u8)
    }
}

/// Width of a tile when `img` is cut into `dim.0` columns.
pub open spec fn tile_width(img: PixelGrid, dim: (u32, u32)) -> nat {
    img.spec_width() / (dim.0 as nat)
}

/// Height of a tile when `img` is cut into `dim.1` rows.
pub open spec fn tile_height(img: PixelGrid, dim: (u32, u32)) -> nat {
    img.spec_height() / (dim.1 as nat)
}

/// The pixels of the tile in column `tx` and row `ty`.
pub open spec fn tile_of(img: PixelGrid, dim: (u32, u32), tx: int, ty: int) -> Seq<(u8, u8, u8)> {
    let tw = tile_width(img, dim);
    let th = tile_height(img, dim);
    rect_pixels(img, tx * tw, ty * th, tw, th)
}

/// The cell that stands for the tile in column `tx` and row `ty`.
pub open spec fn tile_cell<L: Fn(u8, u8, u8) -> u8>(
    img: PixelGrid,
    dim: (u32, u32),
    color: bool,
    depth: u8,
    f: L,
    tx: int,
    ty: int,
) -> (char, RasciiColor) {
    let c = mean_color(tile_of(img, dim, tx, ty), color, f);
    (glyph_for(c.brightness(f), depth), c)
}

/// `out` is the conversion of `img`: one row for each tile row but the first
/// and the last, one cell in it for each tile column but the first and the last.
pub open spec fn is_conversion_of<L: Fn(u8, u8, u8) -> u8>(
    out: Seq<Seq<(char, RasciiColor)>>,
    img: PixelGrid,
    dim: (u32, u32),
    color: bool,
    depth: u8,
    f: L,
) -> bool {
    &&& out.len() == dim.1 - 2
    &&& forall|i: int| 0 <= i < out.len() ==> (#[trigger] out[i]).len() == dim.0 - 2
    &&& forall|i: int, j: int|
        0 <= i < out.len() && 0 <= j < dim.0 - 2 ==> #[trigger] out[i][j] == tile_cell(
            img,
            dim,
            color,
            depth,
            f,
            j + 1,
            i + 1,
        )
}

/// The rows of `g` as sequences.
pub open spec fn grid_model(g: RasciiOutput) -> Seq<Seq<(char, RasciiColor)>> {
    Seq::new(g@.len(), |i: int| g@[i]@)
}


/// The pixels of the `tw` by `th` tile whose top-left pixel is `(x0, y0)`,
/// row after row.
fn tile_pixels(image: &PixelGrid, x0: u32, y0: u32, tw: u32, th: u32) -> (r: Vec<(u8, u8, u8)>)
    requires
        x0 + tw <= image.spec_width(),
        y0 + th <= image.spec_height(),
        tw > 0,
    ensures
        r@ == rect_pixels(*image, x0 as int, y0 as int, tw as nat, th as nat),
{
    proof {
        image.lemma_dimensions_bounded();
    }
    let mut r: Vec<(u8, u8, u8)> = Vec::new();
    let mut py: u32 = 0;
    while py < th
        invariant
            py <= th,
            x0 + tw <= image.spec_width() <= u32::MAX,
            y0 + th <= image.spec_height() <= u32::MAX,
            tw > 0,
            r@.len() == py * tw,
            forall|i: int|
                0 <= i < r@.len() ==> #[trigger] r@[i] == image.spec_pixel(
                    x0 + i % (tw as int),
                    y0 + i / (tw as int),
                ),
        decreases th - py,
    {
        let mut px: u32 = 0;
        while px < tw
            invariant
                px <= tw,
                py < th,
                x0 + tw <= image.spec_width() <= u32::MAX,
                y0 + th <= image.spec_height() <= u32::MAX,
                tw > 0,
                r@.len() == py * tw + px,
                forall|i: int|
                    0 <= i < r@.len() ==> #[trigger] r@[i] == image.spec_pixel(
                        x0 + i % (tw as int),
                        y0 + i / (tw as int),
                    ),
            decreases tw - px,
        {
            let p = image.pixel(x0 + px, y0 + py);
            proof {
                lemma_fundamental_div_mod_converse(
                    py * tw + px,
                    tw as int,
                    py as int,
                    px as int,
                );
            }
            r.push(p);
            px += 1;
        }
        proof {
            assert((py + 1) * tw == py * tw + tw) by (nonlinear_arith);
        }
        py += 1;
    }
    assert(r@.len() == tw * th) by (nonlinear_arith)
        requires
            r@.len() == py * tw,
            py == th,
    ;
    assert(r@ =~= rect_pixels(*image, x0 as int, y0 as int, tw as nat, th as nat));
    r
}

/// The colour that stands for the non-empty list `pixels`: the floor of the
/// mean of each channel, or, without colour, of the mean brightness.
fn aggregate<L: Fn(u8, u8, u8) -> u8>(pixels: &Vec<(u8, u8, u8)>, color: bool, luminance: &L) -> (c: RasciiColor)
    requires
        pixels@.len() > 0,
        is_luminance(*luminance),
    ensures
        c == mean_color(pixels@, color, *luminance),
{
    let n = pixels.len();
    let mut i: usize = 0;
    if color {
        let mut sr: u128 = 0;
        let mut sg: u128 = 0;
        let mut sb: u128 = 0;
        while i < n
            invariant
                i <= n,
                n == pixels@.len(),
                sr == channel_sum(pixels@.subrange(0, i as int), 0),
                sg == channel_sum(pixels@.subrange(0, i as int), 1),
                sb == channel_sum(pixels@.subrange(0, i as int), 2),
                sr <= 255 * i,
                sg <= 255 * i,
                sb <= 255 * i,
            decreases n - i,
        {
            let p = pixels[i];
            assert(pixels@.subrange(0, i + 1).drop_last() =~= pixels@.subrange(0, i as int));
            sr = sr + p.0 as u128;
            sg = sg + p.1 as u128;
            sb = sb + p.2 as u128;
            i += 1;
        }
        assert(pixels@.subrange(0, n as int) =~= pixels@);
        let m = n as u128;
        RasciiColor::RGB((sr / m) as u8, (sg / m) as u8, (sb / m) as u8)
    } else {
        let mut s: u128 = 0;
        while i < n
            invariant
                i <= n,
                n == pixels@.len(),
                is_luminance(*luminance),
                s == luma_sum(*luminance, pixels@.subrange(0, i as int)),
                s <= 255 * i,
            decreases n - i,
        {
            let p = pixels[i];
            let y = luminance(p.0, p.1, p.2);
            proof {
                lemma_luma_of(*luminance, p, y);
            }
            assert(pixels@.subrange(0, i + 1).drop_last() =~= pixels@.subrange(0, i as int));
            s = s + y as u128;
            i += 1;
        }
        assert(pixels@.subrange(0, n as int) =~= pixels@);
        RasciiColor::Grayscale((s / (n as u128)) as u8)
    }
}

/// Converts `image` into `dim.0` columns by `dim.1` rows of tiles and gives,
/// for each tile but those of the first and last row and column, its mean
/// colour and the glyph of that colour's brightness. `luminance` gives the
/// brightness of an RGB triple; `depth` selects the palette.
pub fn convert<L: Fn(u8, u8, u8) -> u8>(
    image: &PixelGrid,
    dim: (u32, u32),
    color: bool,
    depth: u8,
    luminance: &L,
) -> (r: Result<RasciiOutput, AsciiError>)
    requires
        is_luminance(*luminance),
    ensures
        match r {
            Ok(g) => {
                &&& !invalid_dimensions(image.spec_width(), image.spec_height(), dim)
                &&& is_conversion_of(grid_model(g), *image, dim, color, depth, *luminance)
            },
            Err(e) => {
                &&& invalid_dimensions(image.spec_width(), image.spec_height(), dim)
                &&& e == AsciiError::InvalidDimension
            },
        },
{
    let (cols, rows) = dim;
    if cols < 2 || rows < 2 {
        return Err(AsciiError::InvalidDimension);
    }
    let width = image.width();
    let height = image.height();
    let tw = width / cols;
    let th = height / rows;
    if tw == 0 || th == 0 {
        return Err(AsciiError::InvalidDimension);
    }
    proof {
        lemma_fundamental_div_mod(width as int, cols as int);
        lemma_fundamental_div_mod(height as int, rows as int);
    }
    let ghost img = *image;
    let ghost f = *luminance;
    let mut output: RasciiOutput = Vec::new();
    let mut ty: u32 = 1;
    while ty < rows - 1
        invariant
            2 <= rows,
            2 <= cols,
            1 <= ty <= rows - 1,
            img == *image,
            f == *luminance,
            is_luminance(f),
            tw == tile_width(img, dim),
            th == tile_height(img, dim),
            tw > 0,
            th > 0,
            cols * tw <= width,
            rows * th <= height,
            width == img.spec_width(),
            height == img.spec_height(),
            dim == (cols, rows),
            output@.len() == ty - 1,
            forall|i: int| 0 <= i < output@.len() ==> (#[trigger] output@[i])@.len() == cols - 2,
            forall|i: int, j: int|
                0 <= i < output@.len() && 0 <= j < cols - 2 ==> #[trigger] output@[i]@[j]
                    == tile_cell(img, dim, color, depth, f, j + 1, i + 1),
        decreases rows - 1 - ty,
    {
        let mut row: Vec<(char, RasciiColor)> = Vec::new();
        let mut tx: u32 = 1;
        while tx < cols - 1
            invariant
                2 <= cols,
                1 <= ty < rows - 1,
                1 <= tx <= cols - 1,
                img == *image,
                f == *luminance,
                is_luminance(f),
                tw == tile_width(img, dim),
                th == tile_height(img, dim),
                tw > 0,
                th > 0,
                cols * tw <= width,
                rows * th <= height,
                width == img.spec_width(),
                height == img.spec_height(),
                dim == (cols, rows),
                row@.len() == tx - 1,
                forall|j: int|
                    0 <= j < row@.len() ==> #[trigger] row@[j] == tile_cell(
                        img,
                        dim,
                        color,
                        depth,
                        f,
                        j + 1,
                        ty as int,
                    ),
            decreases cols - 1 - tx,
        {
            proof {
                assert((tx + 1) * tw <= cols * tw) by (nonlinear_arith)
                    requires
                        tx + 1 <= cols,
                ;
                assert((ty + 1) * th <= rows * th) by (nonlinear_arith)
                    requires
                        ty + 1 <= rows,
                ;
                assert(tw * th > 0) by (nonlinear_arith)
                    requires
                        tw > 0,
                        th > 0,
                ;
                assert((tx + 1) * tw == tx * tw + tw) by (nonlinear_arith);
                assert((ty + 1) * th == ty * th + th) by (nonlinear_arith);
            }
            let x0 = tx * tw;
            let y0 = ty * th;
            let tile = tile_pixels(image, x0, y0, tw, th);
            let avg = aggregate(&tile, color, luminance);
            let brightness = avg.to_grayscale(luminance);
            let glyph = select_glyph(brightness, depth);
            row.push((glyph, avg));
            tx += 1;
        }
        output.push(row);
        ty += 1;
    }
    assert(grid_model(output) =~= Seq::new(output@.len(), |i: int| output@[i]@));
    Ok(output)
}

} // verus!
