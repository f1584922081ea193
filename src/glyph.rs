use vstd::prelude::*;

verus! {

/// Ten glyphs, darkest first.
pub const COARSE_PALETTE: &'static str = " .:-=+*#%@";

/// The fine palette, darkest first.
pub const FINE_PALETTE: &'static str = " .\"`^\",:;Il!i~+_-?][}{1)(|\\/tfjrxnuvczXYUJCLQ0OZmwqpdbkhao*#MW&8%B@$";

/// Multiplier of the coarse palette's index.
pub const COARSE_SCALE: u32 = 9;

/// Multiplier of the fine palette's index; it is fixed, not derived from the
/// palette's length.
pub const FINE_SCALE: u32 = 67;

/// A palette depth above ten selects the fine palette.
pub open spec fn uses_fine_palette(depth: u8) -> bool {
    depth > 10
}

/// Index into the selected palette of the glyph for `brightness`:
/// `floor(brightness / 255 * scale)`. A brightness is at most 255, so the
/// index is at most the scale, which is within both palettes.
pub open spec fn glyph_index(brightness: u8, depth: u8) -> int {
    if uses_fine_palette(depth) {
        brightness * FINE_SCALE / 255
    } else {
        brightness * COARSE_SCALE / 255
    }
}

/// The glyph that stands for `brightness` at palette depth `depth`.
pub open spec fn glyph_for(brightness: u8, depth: u8) -> char {
    if uses_fine_palette(depth) {
        FINE_PALETTE@[glyph_index(brightness, depth)]
    } else {
        COARSE_PALETTE@[glyph_index(brightness, depth)]
    }
}

/// Selects the glyph for a brightness value from the palette that `depth`
/// picks.
pub fn select_glyph(brightness: u8, depth: u8) -> (c: char)
    ensures
        c == glyph_for(brightness, depth),
{
    proof {
        reveal_strlit(" .:-=+*#%@");
        reveal_strlit(" .\"`^\",:;Il!i~+_-?][}{1)(|\\/tfjrxnuvczXYUJCLQ0OZmwqpdbkhao*#MW&8%B@$");
    }
    if depth > 10 {
        let i = (brightness as u32) * FINE_SCALE / 255;
        FINE_PALETTE.get_char(i as usize)
    } else {
        let i = (brightness as u32) * COARSE_SCALE / 255;
        COARSE_PALETTE.get_char(i as usize)
    }
}

} // verus!
