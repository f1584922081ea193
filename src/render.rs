use vstd::prelude::*;
use crate::color::RasciiColor;
use crate::convert::{grid_model, RasciiOutput};

verus! {

/// One step of drawing a grid on a terminal.
#[derive(Clone, Copy, Debug, PartialEq, Eq, Structural)]
pub enum RenderOp {
    /// Call the foreground colour callback with this colour.
    Foreground(u8, u8, u8),
    /// Call the background colour callback with this colour.
    Background(u8, u8, u8),
    /// Write this glyph.
    Glyph(char),
    /// Write a line terminator.
    EndOfLine,
}

/// The colour callbacks for one cell: with a foreground callback, that
/// callback and, where there is one too, the background callback, both with
/// the colour `c`.
pub open spec fn color_ops(c: (u8, u8, u8), fg: bool, bg: bool) -> Seq<RenderOp> {
    if fg && bg {
        seq![RenderOp::Foreground(c.0, c.1, c.2), RenderOp::Background(c.0, c.1, c.2)]
    } else if fg {
        seq![RenderOp::Foreground(c.0, c.1, c.2)]
    } else {
        Seq::empty()
    }
}

/// The steps for one cell: its colour callbacks, with the colour as three
/// channels, then its glyph.
pub open spec fn cell_ops(glyph: char, color: RasciiColor, fg: bool, bg: bool) -> Seq<RenderOp> {
    color_ops(color.channels(), fg, bg).push(RenderOp::Glyph(glyph))
}

/// The steps for the cells of one row, left to right.
pub open spec fn row_ops(row: Seq<(char, RasciiColor)>, fg: bool, bg: bool) -> Seq<RenderOp>
    decreases row.len(),
{
    if row.len() == 0 {
        Seq::empty()
    } else {
        row_ops(row.drop_last(), fg, bg) + cell_ops(row.last().0, row.last().1, fg, bg)
    }
}

/// The steps for a grid: each row's steps then a line terminator, top to
/// bottom.
pub open spec fn grid_ops(grid: Seq<Seq<(char, RasciiColor)>>, fg: bool, bg: bool) -> Seq<RenderOp>
    decreases grid.len(),
{
    if grid.len() == 0 {
        Seq::empty()
    } else {
        (grid_ops(grid.drop_last(), fg, bg) + row_ops(grid.last(), fg, bg)).push(
            RenderOp::EndOfLine,
        )
    }
}

/// Appends to `ops` the steps for a cell of this glyph and colour.
fn push_cell_ops(ops: &mut Vec<RenderOp>, glyph: char, color: RasciiColor, fg: bool, bg: bool)
    ensures
        final(ops)@ == old(ops)@ + cell_ops(glyph, color, fg, bg),
{
    let c = color.rgb_channels();
    let ghost start = ops@;
    if fg {
        ops.push(RenderOp::Foreground(c.0, c.1, c.2));
        if bg {
            ops.push(RenderOp::Background(c.0, c.1, c.2));
        }
    }
    assert(ops@ =~= start + color_ops(c, fg, bg));
    ops.push(RenderOp::Glyph(glyph));
    assert(ops@ =~= start + cell_ops(glyph, color, fg, bg));
}

/// The steps that draw `output`, in order; `color_fg` and `color_bg` say
/// whether a foreground and a background colour callback are supplied.
pub fn print_ascii(output: &RasciiOutput, color_fg: bool, color_bg: bool) -> (ops: Vec<RenderOp>)
    ensures
        ops@ == grid_ops(grid_model(*output), color_fg, color_bg),
{
    let ghost grid = grid_model(*output);
    let mut ops: Vec<RenderOp> = Vec::new();
    let mut i: usize = 0;
    while i < output.len()
        invariant
            i <= output@.len(),
            grid == grid_model(*output),
            ops@ == grid_ops(grid.subrange(0, i as int), color_fg, color_bg),
        decreases output@.len() - i,
    {
        let row = &output[i];
        let ghost before = ops@;
        let mut j: usize = 0;
        while j < row.len()
            invariant
                i < output@.len(),
                j <= row@.len(),
                *row == output@[i as int],
                grid == grid_model(*output),
                ops@ == before + row_ops(row@.subrange(0, j as int), color_fg, color_bg),
            decreases row@.len() - j,
        {
            let cell = row[j];
            push_cell_ops(&mut ops, cell.0, cell.1, color_fg, color_bg);
            assert(row@.subrange(0, j + 1).drop_last() =~= row@.subrange(0, j as int));
            assert(row@.subrange(0, j + 1).last() == cell);
            assert(ops@ =~= before + row_ops(row@.subrange(0, j + 1), color_fg, color_bg));
            j += 1;
        }
        ops.push(RenderOp::EndOfLine);
        assert(row@.subrange(0, j as int) =~= row@);
        assert(grid.subrange(0, i + 1).drop_last() =~= grid.subrange(0, i as int));
        assert(ops@ =~= grid_ops(grid.subrange(0, i + 1), color_fg, color_bg));
        i += 1;
    }
    assert(grid.subrange(0, i as int) =~= grid);
    ops
}

} // verus!
