use flask::brightness::Brightness;
use flask::error::FlaskError;
use flask::palette::{
    build_palette_texture, derive_bands, get_main_colors, load_palette, palette_texture_from_color_vec,
    resolve_index, Color, FlaskColor, FlaskPalette,
};

#[test]
fn color_from_hex_splits_channels() {
    assert_eq!(Color::from_hex(0x2f142f), Color::new(0x2f, 0x14, 0x2f));
    assert_eq!(Color::from_hex(0xfcffc0), Color::new(0xfc, 0xff, 0xc0));
}

#[test]
fn main_colors_of_default_palette() {
    let colors = get_main_colors(FlaskPalette::Default);
    assert_eq!(colors.len(), 8);
    assert_eq!(colors[0], Color::new(0x2f, 0x14, 0x2f));
    assert_eq!(colors[7], Color::new(0xfc, 0xff, 0xc0));
}

#[test]
fn default_palette_has_four_bands() {
    let palette = load_palette(FlaskPalette::Default);
    assert_eq!(palette.len(), 32);
    assert_eq!(palette[0], Color::new(0x2f, 0x14, 0x2f));
    // 0x2f = 47: 47 * 0.7 = 32.9 -> 33, 47 * 0.2 = 9.4 -> 9, 47 * 0.1 = 4.7 -> 5
    assert_eq!(palette[8].r, 33);
    assert_eq!(palette[16].r, 9);
    assert_eq!(palette[24].r, 5);
}

#[test]
fn band_scaling_rounds_halves_up() {
    let base = vec![Color::new(5, 255, 0), Color::new(1, 2, 3), Color::new(10, 20, 30), Color::new(15, 25, 35)];
    let bands = derive_bands(&base);
    assert_eq!(bands.len(), 16);
    assert_eq!(bands[0], Color::new(5, 255, 0));
    // Dim: 3.5 -> 4, 178.5 -> 179
    assert_eq!(bands[4], Color::new(4, 179, 0));
    // Dark: 1.0 -> 1, 51.0 -> 51
    assert_eq!(bands[8], Color::new(1, 51, 0));
    // Black: 0.5 -> 1, 25.5 -> 26
    assert_eq!(bands[12], Color::new(1, 26, 0));
}

#[test]
fn palette_texture_layout_for_valid_sizes() {
    let base: Vec<Color> = (0..8u8).map(|i| Color::new(i * 10, i * 20, i * 30)).collect();
    let texture = build_palette_texture(&base).unwrap();
    assert_eq!(texture.len(), 8 * 4 * 3);
    let factors = [10u32, 7, 2, 1];
    for b in 0..4 {
        for i in 0..8 {
            for k in 0..3 {
                let channel = [base[i].r, base[i].g, base[i].b][k] as u32;
                let expected = ((channel * factors[b] + 5) / 10) as u8;
                assert_eq!(texture[3 * (b * 8 + i) + k], expected);
            }
        }
    }
}

#[test]
fn palette_sizes_are_checked() {
    let empty: Vec<Color> = vec![];
    assert_eq!(build_palette_texture(&empty), Err(FlaskError::InvalidPaletteSize));
    let three = vec![Color::new(0, 0, 0); 3];
    assert_eq!(build_palette_texture(&three), Err(FlaskError::InvalidPaletteSize));
    let too_many = vec![Color::new(0, 0, 0); 256];
    assert_eq!(palette_texture_from_color_vec(&too_many), Err(FlaskError::InvalidPaletteSize));
    let largest = vec![Color::new(1, 2, 3); 252];
    assert_eq!(palette_texture_from_color_vec(&largest).unwrap().len(), 252 * 3);
}

#[test]
fn full_palette_texture_is_flat_rgb() {
    let palette = vec![Color::new(1, 2, 3), Color::new(4, 5, 6), Color::new(7, 8, 9), Color::new(10, 11, 12)];
    assert_eq!(palette_texture_from_color_vec(&palette).unwrap(), vec![1, 2, 3, 4, 5, 6, 7, 8, 9, 10, 11, 12]);
}

#[test]
fn resolve_index_offsets_by_band() {
    assert_eq!(resolve_index(FlaskColor::Purple, Brightness::Normal, 8), 1);
    assert_eq!(resolve_index(FlaskColor::Purple, Brightness::Dark, 8), 17);
    assert_eq!(resolve_index(FlaskColor::White, Brightness::VeryDark, 8), 32);
    for c in [FlaskColor::Transparent, FlaskColor::Green, FlaskColor::Teal, FlaskColor::White] {
        assert_eq!(resolve_index(c, Brightness::Normal, 8), c.index());
        assert_eq!(resolve_index(c, Brightness::Normal, 60), c.index());
    }
}

#[test]
fn color_indices_round_trip() {
    assert_eq!(FlaskColor::count(), 8);
    for i in 0..=8u8 {
        assert_eq!(FlaskColor::from_index(i).unwrap().index(), i);
    }
    assert_eq!(FlaskColor::from_index(9), None);
}
