use vstd::arithmetic::div_mod::lemma_fundamental_div_mod;
use vstd::prelude::*;
use crate::color::{luma_of, RasciiColor};
use crate::convert::{
    channel,
    channel_sum,
    invalid_dimensions,
    is_conversion_of,
    luma_sum,
    mean_color,
    tile_cell,
    tile_height,
    tile_of,
    tile_width,
};
use crate::glyph::glyph_for;
use crate::pixels::PixelGrid;
use crate::render::{grid_ops, RenderOp};

verus! {

/// An image at least twice as wide as the tile columns asked for and twice as
/// high as the tile rows is always converted, into `dim.1 - 2` rows of
/// `dim.0 - 2` cells.
pub proof fn lemma_large_image_converts<L: Fn(u8, u8, u8) -> u8>(
    img: PixelGrid,
    dim: (u32, u32),
    color: bool,
    depth: u8,
    f: L,
    out: Seq<Seq<(char, RasciiColor)>>,
)
    requires
        dim.0 >= 2,
        dim.1 >= 2,
        img.spec_width() >= 2 * dim.0,
        img.spec_height() >= 2 * dim.1,
    ensures
        !invalid_dimensions(img.spec_width(), img.spec_height(), dim),
        is_conversion_of(out, img, dim, color, depth, f) ==> {
            &&& out.len() == dim.1 - 2
            &&& forall|i: int| 0 <= i < out.len() ==> (#[trigger] out[i]).len() == dim.0 - 2
        },
{
    lemma_at_least_one(img.spec_width(), dim.0 as nat);
    lemma_at_least_one(img.spec_height(), dim.1 as nat);
}

proof fn lemma_at_least_one(x: nat, d: nat)
    requires
        d > 0,
        x >= d,
    ensures
        x / d >= 1,
{
    lemma_fundamental_div_mod(x as int, d as int);
    let q = x as int / d as int;
    let r = x as int % d as int;
    assert(q >= 1) by (nonlinear_arith)
        requires
            x == d * q + r,
            r < d,
            x >= d,
            d > 0,
    ;
}

/// The colour that every tile of an image of the single colour `c` has.
pub open spec fn solid_color<L: Fn(u8, u8, u8) -> u8>(c: (u8, u8, u8), color: bool, f: L) -> RasciiColor {
    if color {
        RasciiColor::RGB(c.0, c.1, c.2)
    } else {
        RasciiColor::Grayscale(luma_of(f, c))
    }
}

/// In the conversion of an image whose pixels all have the colour `c`, every
/// cell has that colour (without colour, the grey level of its brightness),
/// and so every cell has the same glyph.
pub proof fn lemma_solid_image<L: Fn(u8, u8, u8) -> u8>(
    img: PixelGrid,
    dim: (u32, u32),
    color: bool,
    depth: u8,
    f: L,
    c: (u8, u8, u8),
    tx: int,
    ty: int,
)
    requires
        !invalid_dimensions(img.spec_width(), img.spec_height(), dim),
        forall|x: int, y: int|
            0 <= x < img.spec_width() && 0 <= y < img.spec_height() ==> #[trigger] img.spec_pixel(
                x,
                y,
            ) == c,
        1 <= tx < dim.0 - 1,
        1 <= ty < dim.1 - 1,
    ensures
        tile_cell(img, dim, color, depth, f, tx, ty) == (
        glyph_for(solid_color(c, color, f).brightness(f), depth),
        solid_color(c, color, f),
        ),
{
    let tw = tile_width(img, dim);
    let th = tile_height(img, dim);
    let w = img.spec_width();
    let h = img.spec_height();
    let s = tile_of(img, dim, tx, ty);
    lemma_fundamental_div_mod(w as int, dim.0 as int);
    lemma_fundamental_div_mod(h as int, dim.1 as int);
    assert forall|i: int| 0 <= i < s.len() implies s[i] == c by {
        let x = tx * tw + i % (tw as int);
        let y = ty * th + i / (tw as int);
        assert(0 <= i % (tw as int) < tw);
        assert(0 <= i / (tw as int) < th) by (nonlinear_arith)
            requires
                0 <= i < tw * th,
                tw > 0,
        ;
        assert(0 <= x < w) by (nonlinear_arith)
            requires
                x == tx * tw + i % (tw as int),
                0 <= i % (tw as int) < tw,
                1 <= tx,
                tx + 1 <= dim.0,
                dim.0 * tw <= w,
        ;
        assert(0 <= y < h) by (nonlinear_arith)
            requires
                y == ty * th + i / (tw as int),
                0 <= i / (tw as int) < th,
                1 <= ty,
                ty + 1 <= dim.1,
                dim.1 * th <= h,
        ;
        assert(img.spec_pixel(x, y) == c);
    }
    assert(s.len() > 0) by (nonlinear_arith)
        requires
            s.len() == tw * th,
            tw > 0,
            th > 0,
    ;
    lemma_constant_sums(s, c, f);
    let n = s.len() as int;
    lemma_mul_div_cancel(n, channel(c, 0));
    lemma_mul_div_cancel(n, channel(c, 1));
    lemma_mul_div_cancel(n, channel(c, 2));
    lemma_mul_div_cancel(n, luma_of(f, c) as int);
    assert(mean_color(s, color, f) == solid_color(c, color, f));
}

proof fn lemma_mul_div_cancel(n: int, v: int)
    requires
        n > 0,
    ensures
        (n * v) / n == v,
{
    assert((n * v) / n == v) by (nonlinear_arith)
        requires
            n > 0,
    ;
}

/// Sums over a sequence whose items all equal `c`.
proof fn lemma_constant_sums<L: Fn(u8, u8, u8) -> u8>(s: Seq<(u8, u8, u8)>, c: (u8, u8, u8), f: L)
    requires
        forall|i: int| 0 <= i < s.len() ==> s[i] == c,
    ensures
        channel_sum(s, 0) == s.len() * channel(c, 0),
        channel_sum(s, 1) == s.len() * channel(c, 1),
        channel_sum(s, 2) == s.len() * channel(c, 2),
        luma_sum(f, s) == s.len() * luma_of(f, c),
    decreases s.len(),
{
    if s.len() > 0 {
        let t = s.drop_last();
        lemma_constant_sums(t, c, f);
        let m = t.len() as int;
        assert(s.last() == c);
        assert((m + 1) * channel(c, 0) == m * channel(c, 0) + channel(c, 0)) by (nonlinear_arith);
        assert((m + 1) * channel(c, 1) == m * channel(c, 1) + channel(c, 1)) by (nonlinear_arith);
        assert((m + 1) * channel(c, 2) == m * channel(c, 2) + channel(c, 2)) by (nonlinear_arith);
        assert((m + 1) * luma_of(f, c) == m * luma_of(f, c) + luma_of(f, c)) by (nonlinear_arith);
    }
}

/// With two tile columns, every row of the conversion is empty: the first and
/// the last column are all there is.
pub proof fn lemma_two_columns_give_empty_rows<L: Fn(u8, u8, u8) -> u8>(
    out: Seq<Seq<(char, RasciiColor)>>,
    img: PixelGrid,
    dim: (u32, u32),
    color: bool,
    depth: u8,
    f: L,
)
    requires
        dim.0 == 2,
        is_conversion_of(out, img, dim, color, depth, f),
    ensures
        forall|i: int| 0 <= i < out.len() ==> (#[trigger] out[i]).len() == 0,
{
}

/// Rendering a grid twice, with the same callbacks supplied, gives the same
/// steps both times.
pub proof fn lemma_render_repeatable(
    grid: Seq<Seq<(char, RasciiColor)>>,
    fg: bool,
    bg: bool,
    first: Seq<RenderOp>,
    second: Seq<RenderOp>,
)
    requires
        first == grid_ops(grid, fg, bg),
        second == grid_ops(grid, fg, bg),
    ensures
        first == second,
{
}

} // verus!
