use flask::error::FlaskError;
use flask::font::Font;
use flask::palette::FlaskColor;
use flask::sprite::Sprite;

/// A 3 × 5 indexed PNG whose top-left pixel holds `c`.
fn glyph_png(c: u8) -> Vec<u8> {
    let mut data = [0u8; 15];
    data[0] = c;
    let mut out = Vec::new();
    {
        let mut encoder = png::Encoder::new(&mut out, 3, 5);
        encoder.set_color(png::ColorType::Indexed);
        encoder.set_depth(png::BitDepth::Eight);
        encoder.set_palette(vec![0u8; 3 * 16]);
        let mut writer = encoder.write_header().unwrap();
        writer.write_image_data(&data).unwrap();
    }
    out
}

/// Image `k` marks its top-left pixel with `k % 8 + 1`.
fn sheet() -> Vec<Vec<u8>> {
    (0..94).map(|k| glyph_png((k % 8 + 1) as u8)).collect()
}

fn mark(s: &Sprite) -> FlaskColor {
    s.get_color_index_at(0, 4)
}

#[test]
fn glyph_sheet_mapping() {
    let f = Font::load_3x5(&sheet()).unwrap();
    assert_eq!(f.get_glyph_width(), 3);
    assert_eq!(f.get_glyph_height(), 5);
    let image = |b: u8| mark(f.get_glyph(&b));
    let expect = |k: usize| FlaskColor::from_index((k % 8 + 1) as u8).unwrap();
    for (i, b) in (b'a'..=b'z').enumerate() {
        assert_eq!(image(b), expect(i));
    }
    for (i, b) in (b'A'..=b'Z').enumerate() {
        assert_eq!(image(b), expect(26 + i));
    }
    for (i, b) in (b'0'..=b'9').enumerate() {
        assert_eq!(image(b), expect(52 + i));
    }
    for (i, b) in ".,!?:;<>=()'%$&#\"-+_{}*/`^|~[]".bytes().enumerate() {
        assert_eq!(image(b), expect(62 + i));
    }
    assert_eq!(image(b'B'), expect(27));
    assert_eq!(image(b'0'), expect(52));
    assert_eq!(image(b'@'), expect(93));
    // bytes with no glyph of their own get the fallback, image 92
    assert_eq!(image(b' '), expect(92));
    assert_eq!(image(b'\n'), expect(92));
    assert_eq!(image(0xff), expect(92));
}

#[test]
fn glyph_sheet_must_be_complete() {
    let mut s = sheet();
    s.truncate(93);
    assert!(matches!(Font::load_3x5(&s), Err(FlaskError::MissingGlyphImage)));
    let mut s = sheet();
    s[5] = vec![1, 2, 3];
    assert!(matches!(Font::load_3x5(&s), Err(FlaskError::Decode(_))));
}

#[test]
fn fallback_glyph_for_unmapped_bytes() {
    let null = Sprite::from_pixels(1, 1, vec![vec![FlaskColor::Red]]);
    let mut f = Font::new(null);
    f.add_glyph(b'x', Sprite::from_pixels(2, 1, vec![vec![FlaskColor::Teal], vec![FlaskColor::Teal]]));
    assert_eq!(f.get_glyph(&b'x').get_width(), 2);
    assert_eq!(f.get_glyph(&b'y').get_color_index_at(0, 0), FlaskColor::Red);
    assert_eq!(f.get_glyph_width(), 1);
}
