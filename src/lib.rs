//! Conversion of raster images into grids of glyphs ("ascii art"), each glyph
//! carrying the colour of the image tile it stands for, and the rendering of
//! such a grid as a sequence of terminal operations.
pub mod color;
pub mod convert;
pub mod glyph;
pub mod laws;
pub mod pixels;
pub mod render;

pub use color::RasciiColor;



pub use convert::{convert, AsciiError, RasciiOutput};
pub use pixels::PixelGrid;
pub use render::{print_ascii, RenderOp};
