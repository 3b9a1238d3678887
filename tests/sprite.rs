use flask::error::FlaskError;
use flask::palette::FlaskColor;
use flask::sprite::{DecodedImage, ImageColorType, Sprite, TileSet};

/// An 8-bit PNG of the given color type, rows top first.
fn png_bytes(color: png::ColorType, depth: png::BitDepth, width: u32, height: u32, data: &[u8]) -> Vec<u8> {
    let mut out = Vec::new();
    {
        let mut encoder = png::Encoder::new(&mut out, width, height);
        encoder.set_color(color);
        encoder.set_depth(depth);
        if color == png::ColorType::Indexed {
            encoder.set_palette(vec![0u8; 3 * 16]);
        }
        let mut writer = encoder.write_header().unwrap();
        writer.write_image_data(data).unwrap();
    }
    out
}

fn indexed(width: u32, height: u32, data: &[u8]) -> Vec<u8> {
    png_bytes(png::ColorType::Indexed, png::BitDepth::Eight, width, height, data)
}

#[test]
fn png_rows_are_flipped_upward() {
    // top row: 1 2 3, bottom row: 4 5 6
    let s = Sprite::from_indexed_8bit_png(&indexed(3, 2, &[1, 2, 3, 4, 5, 6])).unwrap();
    assert_eq!(s.get_width(), 3);
    assert_eq!(s.get_height(), 2);
    assert_eq!(s.get_color_index_at(0, 0), FlaskColor::Red);
    assert_eq!(s.get_color_index_at(2, 0), FlaskColor::Teal);
    assert_eq!(s.get_color_index_at(0, 1), FlaskColor::Purple);
    assert_eq!(s.get_color_index_at(2, 1), FlaskColor::Brown);
    assert_eq!(s.get_color_index_at(3, 0), FlaskColor::Transparent);
    assert_eq!(s.get_color_index_at(0, 2), FlaskColor::Transparent);
}

#[test]
fn png_errors() {
    let rgb = png_bytes(png::ColorType::RGB, png::BitDepth::Eight, 1, 1, &[1, 2, 3]);
    assert!(matches!(Sprite::from_indexed_8bit_png(&rgb), Err(FlaskError::NotIndexed)));
    let four_bit = png_bytes(png::ColorType::Indexed, png::BitDepth::Four, 4, 1, &[0x12, 0x34]);
    assert!(matches!(
        Sprite::from_indexed_8bit_png(&four_bit),
        Err(FlaskError::UnexpectedImageSize { width: 4, height: 1, byte_count: 2 })
    ));
    let bad_index = indexed(2, 1, &[1, 9]);
    assert!(matches!(Sprite::from_indexed_8bit_png(&bad_index), Err(FlaskError::InvalidColorIndex(9))));
    assert!(matches!(Sprite::from_indexed_8bit_png(&[1, 2, 3, 4]), Err(FlaskError::Decode(_))));
}

#[test]
fn decoded_image_checks() {
    let img = DecodedImage { color_type: ImageColorType::Indexed, width: 2, height: 2, data: vec![0, 1, 2, 3] };
    let s = Sprite::from_decoded_image(&img).unwrap();
    assert_eq!(s.get_color_index_at(0, 1), FlaskColor::Transparent);
    assert_eq!(s.get_color_index_at(1, 0), FlaskColor::Brown);
    let short = DecodedImage { color_type: ImageColorType::Indexed, width: 2, height: 2, data: vec![0, 1, 2] };
    assert!(matches!(
        Sprite::from_decoded_image(&short),
        Err(FlaskError::UnexpectedImageSize { width: 2, height: 2, byte_count: 3 })
    ));
    let rgba = DecodedImage { color_type: ImageColorType::Rgba, width: 1, height: 1, data: vec![0, 0, 0, 0] };
    assert!(matches!(Sprite::from_decoded_image(&rgba), Err(FlaskError::NotIndexed)));
}

#[test]
fn tiles_run_from_the_top_row() {
    // a 4 × 4 image of 2 × 2 tiles; each tile filled with its own color, top-left tile first
    let data = [
        1, 1, 2, 2, //
        1, 1, 2, 2, //
        3, 3, 4, 4, //
        3, 3, 4, 4,
    ];
    let tiles = TileSet::from_indexed_8bit_png(&indexed(4, 4, &data), 2, 2).unwrap();
    assert_eq!(tiles.len(), 4);
    let expected = [FlaskColor::Purple, FlaskColor::Green, FlaskColor::Brown, FlaskColor::Red];
    for (t, c) in expected.iter().enumerate() {
        let tile = tiles.get_tile_at_index(t as u32).unwrap();
        assert_eq!(tile.get_width(), 2);
        assert_eq!(tile.get_height(), 2);
        for x in 0..2 {
            for y in 0..2 {
                assert_eq!(tile.get_color_index_at(x, y), *c);
            }
        }
    }
    assert!(matches!(tiles.get_tile_at_index(4), Err(FlaskError::TileIndexOutOfBounds)));
}

#[test]
fn tile_sizes_must_divide_the_image() {
    let png = indexed(4, 4, &[0; 16]);
    assert!(matches!(TileSet::from_indexed_8bit_png(&png, 3, 2), Err(FlaskError::TileWidthMismatch(3))));
    assert!(matches!(TileSet::from_indexed_8bit_png(&png, 2, 3), Err(FlaskError::TileHeightMismatch(3))));
    let s = Sprite::from_pixels(2, 1, vec![vec![FlaskColor::Red], vec![FlaskColor::Teal]]);
    let tiles = TileSet::from_sprite(&s, 1, 1).unwrap();
    assert_eq!(tiles.get_tile_at_index(1).unwrap().get_color_index_at(0, 0), FlaskColor::Teal);
}
