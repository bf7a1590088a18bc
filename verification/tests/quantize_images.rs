use placeplace::grid::{
    DecodeError, Grid, InvalidPixel, SENTINEL_CELL, absolute_coords, effective_current,
    load_image_cells,
};
use placeplace::palette::{build_lookup, create_palette};

fn encode_png(width: u32, height: u32, color: png::ColorType, data: &[u8]) -> Vec<u8> {
    let mut out: Vec<u8> = Vec::new();
    {
        let mut encoder = png::Encoder::new(&mut out, width, height);
        encoder.set_color(color);
        encoder.set_depth(png::BitDepth::Eight);
        let mut writer = encoder.write_header().unwrap();
        writer.write_image_data(data).unwrap();
    }
    out
}

fn rgba_of(palette: &[placeplace::palette::PaletteColor], i: usize) -> [u8; 4] {
    let (r, g, b) = palette[i].rgb;
    [r, g, b, 255]
}

#[test]
fn quantize_returns_full_grid_of_valid_indices() {
    let palette = create_palette();
    let lookup = build_lookup(&palette);
    // A 3x2 image of six palette colors, row-major.
    let mut data: Vec<u8> = Vec::new();
    for i in [2usize, 7, 13, 27, 31, 0] {
        data.extend_from_slice(&rgba_of(&palette, i));
    }
    let bytes = encode_png(3, 2, png::ColorType::Rgba, &data);
    let (grid, diags) = load_image_cells(&bytes, &lookup).unwrap();
    assert_eq!(grid.width, 3);
    assert_eq!(grid.height, 2);
    assert_eq!(grid.cells.len(), 6);
    assert_eq!(grid.cells, vec![2, 7, 13, 27, 31, 0]);
    for cell in &grid.cells {
        assert!((*cell as usize) < palette.len());
    }
    assert!(diags.is_empty());
}

#[test]
fn quantize_single_pixel_of_each_palette_color() {
    let palette = create_palette();
    let lookup = build_lookup(&palette);
    for i in 0..palette.len() {
        let bytes = encode_png(1, 1, png::ColorType::Rgba, &rgba_of(&palette, i));
        let (grid, diags) = load_image_cells(&bytes, &lookup).unwrap();
        assert_eq!(grid.cells, vec![i as u8]);
        assert!(diags.is_empty());
    }
}

#[test]
fn quantize_fallback_yields_zero_and_one_diagnostic() {
    let palette = create_palette();
    let lookup = build_lookup(&palette);
    // (1, 2, 3) is not a palette color.
    let bytes = encode_png(1, 1, png::ColorType::Rgba, &[1, 2, 3, 255]);
    let (grid, diags) = load_image_cells(&bytes, &lookup).unwrap();
    assert_eq!(grid.cells, vec![0]);
    assert_eq!(diags.len(), 1);
    assert_eq!(diags[0], InvalidPixel { x: 0, y: 0, rgb: (1, 2, 3) });
}

#[test]
fn quantize_diagnostic_coordinates_are_row_major() {
    let palette = create_palette();
    let lookup = build_lookup(&palette);
    // A 2x2 image whose last pixel (x = 1, y = 1) is not a palette color.
    let mut data: Vec<u8> = Vec::new();
    data.extend_from_slice(&rgba_of(&palette, 5));
    data.extend_from_slice(&rgba_of(&palette, 6));
    data.extend_from_slice(&rgba_of(&palette, 7));
    data.extend_from_slice(&[9, 9, 9, 255]);
    let bytes = encode_png(2, 2, png::ColorType::Rgba, &data);
    let (grid, diags) = load_image_cells(&bytes, &lookup).unwrap();
    assert_eq!(grid.cells, vec![5, 6, 7, 0]);
    assert_eq!(diags, vec![InvalidPixel { x: 1, y: 1, rgb: (9, 9, 9) }]);
}

#[test]
fn decode_rejects_non_rgba_layout() {
    let palette = create_palette();
    let lookup = build_lookup(&palette);
    // An 8-bit RGB image (no alpha channel) must be rejected, not reinterpreted.
    let bytes = encode_png(1, 1, png::ColorType::Rgb, &[255, 255, 255]);
    assert_eq!(load_image_cells(&bytes, &lookup).unwrap_err(), DecodeError::NotRgba8);
}

#[test]
fn decode_rejects_sixteen_bit_rgba() {
    let palette = create_palette();
    let lookup = build_lookup(&palette);
    // RGBA with a 16-bit channel depth is not the 8-bit layout the system
    // accepts.
    let mut out: Vec<u8> = Vec::new();
    {
        let mut encoder = png::Encoder::new(&mut out, 1, 1);
        encoder.set_color(png::ColorType::Rgba);
        encoder.set_depth(png::BitDepth::Sixteen);
        let mut writer = encoder.write_header().unwrap();
        writer.write_image_data(&[0; 8]).unwrap();
    }
    assert_eq!(load_image_cells(&out, &lookup).unwrap_err(), DecodeError::NotRgba8);
}

#[test]
fn decode_rejects_malformed_bytes() {
    let palette = create_palette();
    let lookup = build_lookup(&palette);
    let bytes = vec![1, 2, 3, 4, 5];
    assert_eq!(load_image_cells(&bytes, &lookup).unwrap_err(), DecodeError::Malformed);
}

#[test]
fn sentinel_substitution_on_size_mismatch() {
    // A goal grid of 100 cells and a current snapshot of 80: the effective
    // current grid has 100 cells, each mismatching its goal cell.
    let goal = Grid { width: 10, height: 10, cells: vec![5; 100] };
    let current = Grid { width: 10, height: 8, cells: vec![5; 80] };
    let effective = effective_current(&goal, current);
    assert_eq!(effective.width, 10);
    assert_eq!(effective.height, 10);
    assert_eq!(effective.cells.len(), 100);
    for (goal_cell, current_cell) in goal.cells.iter().zip(effective.cells.iter()) {
        assert_eq!(*current_cell, SENTINEL_CELL);
        assert_ne!(*current_cell, *goal_cell);
    }
}

#[test]
fn effective_current_keeps_matching_snapshot() {
    let goal = Grid { width: 2, height: 2, cells: vec![1, 2, 3, 4] };
    let current = Grid { width: 2, height: 2, cells: vec![4, 3, 2, 1] };
    let effective = effective_current(&goal, current);
    assert_eq!(effective.cells, vec![4, 3, 2, 1]);
}

#[test]
fn absolute_coords_add_the_origin_offset() {
    // Grid index 7 on a 5-wide grid is column 2, row 1.
    assert_eq!(absolute_coords(7, 5, 100, 200), (102, 201));
    assert_eq!(absolute_coords(0, 5, 100, 200), (100, 200));
}
