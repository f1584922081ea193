use rascii::glyph::select_glyph;
use rascii::{convert, print_ascii, AsciiError, PixelGrid, RasciiColor, RasciiOutput, RenderOp};

const GAMMA: f64 = 2.2;

fn luminance(r: u8, g: u8, b: u8) -> u8 {
    let rlin = (f64::from(r)).powf(GAMMA);
    let glin = (f64::from(g)).powf(GAMMA);
    let blin = (f64::from(b)).powf(GAMMA);
    let y = (0.2126 * rlin) + (0.7152 * glin) + (0.0722 * blin);
    (116.0 * y.powf(1.0 / 3.0) - 16.0) as u8
}

fn solid(width: u32, height: u32, c: (u8, u8, u8)) -> PixelGrid {
    PixelGrid::new(width, height, vec![c; (width * height) as usize]).unwrap()
}

fn run(img: &PixelGrid, dim: (u32, u32), color: bool, depth: u8) -> Result<RasciiOutput, AsciiError> {
    convert(img, dim, color, depth, &luminance)
}

#[test]
fn pixel_grid_rejects_wrong_pixel_count() {
    assert!(PixelGrid::new(2, 2, vec![(0, 0, 0); 3]).is_none());
    assert!(PixelGrid::new(2, 2, vec![(0, 0, 0); 5]).is_none());
    let g = PixelGrid::new(2, 3, vec![(1, 2, 3); 6]).unwrap();
    assert_eq!(g.width(), 2);
    assert_eq!(g.height(), 3);
}

#[test]
fn pixel_lookup_is_row_major() {
    let pixels: Vec<(u8, u8, u8)> = (0..6u8).map(|i| (i, 0, 0)).collect();
    let g = PixelGrid::new(3, 2, pixels).unwrap();
    assert_eq!(g.pixel(0, 0), (0, 0, 0));
    assert_eq!(g.pixel(2, 0), (2, 0, 0));
    assert_eq!(g.pixel(0, 1), (3, 0, 0));
    assert_eq!(g.pixel(2, 1), (5, 0, 0));
}

#[test]
fn grayscale_brightness_is_identity() {
    assert_eq!(RasciiColor::Grayscale(0).to_grayscale(&luminance), 0);
    assert_eq!(RasciiColor::Grayscale(255).to_grayscale(&luminance), 255);
    assert_eq!(RasciiColor::Grayscale(77).to_grayscale(&luminance), 77);
}

#[test]
fn rgb_brightness_uses_luminance() {
    assert_eq!(RasciiColor::RGB(255, 0, 0).to_grayscale(&luminance), 255);
    assert_eq!(RasciiColor::RGB(0, 0, 0).to_grayscale(&luminance), 0);
    assert_eq!(RasciiColor::RGB(1, 1, 1).to_grayscale(&luminance), 100);
    assert_eq!(RasciiColor::RGB(9, 8, 7).to_grayscale(&|_r: u8, g: u8, _b: u8| g), 8);
}

#[test]
fn rgb_channels_of_grayscale_are_black() {
    assert_eq!(RasciiColor::RGB(1, 2, 3).rgb_channels(), (1, 2, 3));
    assert_eq!(RasciiColor::Grayscale(200).rgb_channels(), (0, 0, 0));
}

#[test]
fn coarse_palette_bounds() {
    assert_eq!(select_glyph(0, 0), ' ');
    assert_eq!(select_glyph(255, 0), '@');
    assert_eq!(select_glyph(255, 10), '@');
}

#[test]
fn fine_palette_bounds() {
    assert_eq!(select_glyph(0, 11), ' ');
    assert_eq!(select_glyph(255, 11), '$');
    assert_eq!(select_glyph(255, 200), '$');
}

#[test]
fn glyph_index_is_floor_of_scaled_brightness() {
    // 128 * 9 / 255 = 4.51..., so index 4
    assert_eq!(select_glyph(128, 0), '=');
    // 85 * 9 / 255 = 3 exactly
    assert_eq!(select_glyph(85, 0), '-');
    assert_eq!(select_glyph(84, 0), ':');
    // 128 * 67 / 255 = 33.6..., so index 33
    assert_eq!(select_glyph(128, 11), 'n');
}

#[test]
fn palette_threshold_between_ten_and_eleven() {
    assert_ne!(select_glyph(255, 10), select_glyph(255, 11));
    assert_ne!(select_glyph(128, 10), select_glyph(128, 11));
}

#[test]
fn red_image_in_colour() {
    let img = solid(4, 4, (255, 0, 0));
    let out = run(&img, (4, 4), true, 0).unwrap();
    let glyph = select_glyph(luminance(255, 0, 0), 0);
    assert_eq!(glyph, '@');
    assert_eq!(out.len(), 2);
    for row in &out {
        assert_eq!(row.len(), 2);
        for cell in row {
            assert_eq!(*cell, (glyph, RasciiColor::RGB(255, 0, 0)));
        }
    }
}

#[test]
fn red_image_in_grayscale() {
    let img = solid(4, 4, (255, 0, 0));
    let out = run(&img, (4, 4), false, 0).unwrap();
    let v = luminance(255, 0, 0);
    let glyph = select_glyph(v, 0);
    assert_eq!(out.len(), 2);
    for row in &out {
        assert_eq!(row.len(), 2);
        for cell in row {
            assert_eq!(*cell, (glyph, RasciiColor::Grayscale(v)));
        }
    }
}

#[test]
fn two_columns_give_empty_rows() {
    let img = solid(10, 10, (3, 4, 5));
    let out = run(&img, (2, 5), true, 0).unwrap();
    assert_eq!(out.len(), 3);
    assert!(out.iter().all(|row| row.is_empty()));
    let out = run(&img, (2, 2), false, 20).unwrap();
    assert!(out.is_empty());
}

#[test]
fn large_image_has_trimmed_shape() {
    let img = solid(10, 8, (0, 0, 0));
    let out = run(&img, (5, 4), true, 0).unwrap();
    assert_eq!(out.len(), 2);
    assert!(out.iter().all(|row| row.len() == 3));
    let img = solid(7, 9, (0, 0, 0));
    let out = run(&img, (3, 4), false, 11).unwrap();
    assert_eq!(out.len(), 2);
    assert!(out.iter().all(|row| row.len() == 1));
}

#[test]
fn solid_image_cells_all_equal() {
    let c = (10, 200, 30);
    let img = solid(12, 9, c);
    let out = run(&img, (4, 3), true, 11).unwrap();
    let expected = (select_glyph(luminance(10, 200, 30), 11), RasciiColor::RGB(10, 200, 30));
    assert_eq!(out.len(), 1);
    assert_eq!(out[0], vec![expected, expected]);
    let out = run(&img, (4, 3), false, 11).unwrap();
    let v = luminance(10, 200, 30);
    assert_eq!(out[0], vec![(select_glyph(v, 11), RasciiColor::Grayscale(v)); 2]);
}

#[test]
fn tile_mean_is_floored() {
    // 6x6 image cut into 3x3 tiles of 2x2; only the middle tile is kept.
    let mut pixels = vec![(0u8, 0u8, 0u8); 36];
    pixels[2 * 6 + 2] = (1, 10, 255);
    pixels[2 * 6 + 3] = (2, 11, 255);
    pixels[3 * 6 + 2] = (2, 11, 254);
    pixels[3 * 6 + 3] = (2, 11, 254);
    let img = PixelGrid::new(6, 6, pixels).unwrap();
    let out = run(&img, (3, 3), true, 0).unwrap();
    assert_eq!(out.len(), 1);
    assert_eq!(out[0].len(), 1);
    assert_eq!(out[0][0].1, RasciiColor::RGB(1, 10, 254));
    let gray = |r: u8, _g: u8, _b: u8| r;
    let out = convert(&img, (3, 3), false, 0, &gray).unwrap();
    assert_eq!(out[0][0], (' ', RasciiColor::Grayscale(1)));
}

#[test]
fn grayscale_mode_averages_pixel_brightness() {
    // brightness of each pixel first, then the floor of the mean: (255 + 0) / 2
    let pixels = vec![(255u8, 0u8, 0u8), (0, 0, 0), (255, 0, 0), (0, 0, 0)];
    let img = PixelGrid::new(2, 2, pixels).unwrap();
    let tall = PixelGrid::new(4, 4, {
        let mut p = vec![(0u8, 0u8, 0u8); 16];
        p[5] = (255, 0, 0);
        p
    })
    .unwrap();
    assert!(run(&img, (2, 2), false, 0).unwrap().is_empty());
    let out = run(&tall, (4, 4), false, 0).unwrap();
    assert_eq!(out[0][0], ('@', RasciiColor::Grayscale(255)));
    assert_eq!(out[0][1], (' ', RasciiColor::Grayscale(0)));
    let wide = PixelGrid::new(6, 3, vec![(255, 0, 0), (0, 0, 0), (255, 0, 0), (0, 0, 0), (0, 0, 0), (0, 0, 0),
        (255, 0, 0), (0, 0, 0), (255, 0, 0), (0, 0, 0), (0, 0, 0), (0, 0, 0),
        (0, 0, 0), (0, 0, 0), (0, 0, 0), (0, 0, 0), (0, 0, 0), (0, 0, 0)]).unwrap();
    let out = run(&wide, (3, 3), false, 0).unwrap();
    assert_eq!(out, vec![vec![(select_glyph(127, 0), RasciiColor::Grayscale(127))]]);
}

#[test]
fn too_few_tiles_is_an_error() {
    let img = solid(10, 10, (1, 1, 1));
    assert_eq!(run(&img, (1, 4), true, 0), Err(AsciiError::InvalidDimension));
    assert_eq!(run(&img, (4, 1), true, 0), Err(AsciiError::InvalidDimension));
    assert_eq!(run(&img, (0, 0), false, 0), Err(AsciiError::InvalidDimension));
}

#[test]
fn tiles_smaller_than_a_pixel_is_an_error() {
    let img = solid(10, 10, (1, 1, 1));
    assert_eq!(run(&img, (11, 4), true, 0), Err(AsciiError::InvalidDimension));
    assert_eq!(run(&img, (4, 11), true, 0), Err(AsciiError::InvalidDimension));
    assert!(run(&img, (10, 10), true, 0).is_ok());
}

fn sample_grid() -> RasciiOutput {
    vec![
        vec![('@', RasciiColor::RGB(1, 2, 3)), ('.', RasciiColor::Grayscale(9))],
        vec![(' ', RasciiColor::RGB(4, 5, 6))],
    ]
}

#[test]
fn render_without_callbacks() {
    let ops = print_ascii(&sample_grid(), false, false);
    assert_eq!(
        ops,
        vec![
            RenderOp::Glyph('@'),
            RenderOp::Glyph('.'),
            RenderOp::EndOfLine,
            RenderOp::Glyph(' '),
            RenderOp::EndOfLine,
        ]
    );
}

#[test]
fn render_with_both_callbacks() {
    let ops = print_ascii(&sample_grid(), true, true);
    assert_eq!(
        ops,
        vec![
            RenderOp::Foreground(1, 2, 3),
            RenderOp::Background(1, 2, 3),
            RenderOp::Glyph('@'),
            RenderOp::Foreground(0, 0, 0),
            RenderOp::Background(0, 0, 0),
            RenderOp::Glyph('.'),
            RenderOp::EndOfLine,
            RenderOp::Foreground(4, 5, 6),
            RenderOp::Background(4, 5, 6),
            RenderOp::Glyph(' '),
            RenderOp::EndOfLine,
        ]
    );
}

#[test]
fn render_background_needs_foreground() {
    let fg_only = print_ascii(&sample_grid(), true, false);
    assert_eq!(fg_only[0], RenderOp::Foreground(1, 2, 3));
    assert_eq!(fg_only[1], RenderOp::Glyph('@'));
    assert_eq!(fg_only.len(), 8);
    assert_eq!(print_ascii(&sample_grid(), false, true), print_ascii(&sample_grid(), false, false));
}

#[test]
fn render_twice_is_identical() {
    let grid = sample_grid();
    assert_eq!(print_ascii(&grid, true, true), print_ascii(&grid, true, true));
    let empty: RasciiOutput = Vec::new();
    assert!(print_ascii(&empty, true, true).is_empty());
}
