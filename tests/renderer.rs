use std::collections::BTreeSet;

use flask::brightness::Brightness;
use flask::error::FlaskError;
use flask::font::Font;
use flask::frame_buffer::FrameBuffer;
use flask::lights::PointLight;
use flask::palette::{load_palette, FlaskColor, FlaskPalette};
use flask::renderer::Renderer;
use flask::sprite::Sprite;

const SIZE: u32 = 32;

fn renderer() -> Renderer {
    Renderer::new(FrameBuffer::new(SIZE, SIZE), load_palette(FlaskPalette::Default)).unwrap()
}

/// The index shown at world point `(x, y)` with the camera at the origin.
fn at(r: &Renderer, x: i64, y: i64) -> u8 {
    let bx = (x + SIZE as i64 / 2) as usize;
    let by = (y + SIZE as i64 / 2) as usize;
    r.get_frame_buffer().present()[by * SIZE as usize + bx]
}

/// World points holding a non-zero index.
fn painted(r: &Renderer) -> BTreeSet<(i64, i64)> {
    let mut s = BTreeSet::new();
    let frame = r.get_frame_buffer().present();
    for by in 0..SIZE as i64 {
        for bx in 0..SIZE as i64 {
            if frame[(by * SIZE as i64 + bx) as usize] != 0 {
                s.insert((bx - SIZE as i64 / 2, by - SIZE as i64 / 2));
            }
        }
    }
    s
}

fn set_of(points: &[(i64, i64)]) -> BTreeSet<(i64, i64)> {
    points.iter().cloned().collect()
}

#[test]
fn new_renderer_defaults() {
    let r = renderer();
    assert_eq!(r.get_window_size(), (32, 32));
    assert_eq!(r.get_camera_position(), (0, 0));
    assert_eq!(r.get_background_color(), 1);
    assert_eq!(r.get_brightness(), Brightness::Normal);
    assert_eq!(r.get_palette_size(), 32);
    assert_eq!(r.get_palette_texture().len(), 96);
}

#[test]
fn renderer_refuses_bad_palettes() {
    let mut palette = load_palette(FlaskPalette::Default);
    palette.pop();
    assert!(matches!(Renderer::new(FrameBuffer::new(8, 8), palette), Err(FlaskError::InvalidPaletteSize)));
    assert!(matches!(Renderer::new(FrameBuffer::new(8, 8), vec![]), Err(FlaskError::InvalidPaletteSize)));
}

#[test]
fn background_color_scenario() {
    let mut r = renderer();
    r.set_background_color(FlaskColor::Purple);
    assert_eq!(r.get_background_color(), 1);
    r.set_background_color_lit(FlaskColor::Purple, Brightness::Dark);
    assert_eq!(r.get_background_color(), 1 + 2 * 8);
}

#[test]
fn background_color_raw_is_checked() {
    let mut r = renderer();
    assert_eq!(r.set_background_color_raw(0), Err(FlaskError::BackgroundColorZero));
    assert_eq!(r.set_background_color_raw(33), Err(FlaskError::BackgroundColorOutOfBounds(33)));
    assert_eq!(r.get_background_color(), 1);
    assert_eq!(r.set_background_color_raw(32), Ok(()));
    assert_eq!(r.get_background_color(), 32);
}

#[test]
fn point_goes_through_the_camera() {
    let mut r = renderer();
    r.set_camera_position(3, -2);
    r.point_raw(3, -2, 5);
    // world (3, -2) is at the camera: buffer (16, 16)
    assert_eq!(r.get_frame_buffer().present()[16 * 32 + 16], 5);
}

#[test]
fn negative_buffer_positions_are_dropped() {
    let mut r = renderer();
    r.set_camera_x(10);
    let before = r.get_frame_buffer().present().clone();
    // buffer x = -7 - 10 + 16 = -1
    r.point_raw(-7, 0, 3);
    r.set_camera_y(20);
    r.point_raw(0, 0, 3);
    r.point_raw(i64::MIN, i64::MIN, 3);
    assert_eq!(r.get_frame_buffer().present(), &before);
}

#[test]
fn far_positive_positions_are_dropped() {
    let mut r = renderer();
    r.point_raw(16, 0, 3);
    r.point_raw(0, 16, 3);
    r.point_raw(i64::MAX, 0, 3);
    r.point_raw(0x1_0000_0000 - 16, 0, 3);
    assert!(painted(&r).is_empty());
}

#[test]
fn point_lit_uses_the_band() {
    let mut r = renderer();
    r.point(0, 0, FlaskColor::Teal);
    r.point_lit(1, 0, FlaskColor::Teal, Brightness::VeryDark);
    assert_eq!(at(&r, 0, 0), 6);
    assert_eq!(at(&r, 1, 0), 6 + 24);
}

#[test]
fn degenerate_line_is_one_point() {
    let mut r = renderer();
    r.line_raw(3, 4, 3, 4, 7);
    assert_eq!(painted(&r), set_of(&[(3, 4)]));
    assert_eq!(at(&r, 3, 4), 7);
}

#[test]
fn line_x_major_exact_pixels() {
    let expected = set_of(&[(0, 0), (1, 1), (2, 1), (3, 2), (4, 2)]);
    let mut r = renderer();
    r.line_raw(0, 0, 4, 2, 1);
    assert_eq!(painted(&r), expected);
    let mut r = renderer();
    r.line_raw(4, 2, 0, 0, 1);
    assert_eq!(painted(&r), expected);
    let mut r = renderer();
    r.line_raw(0, 0, 4, -2, 1);
    assert_eq!(painted(&r), set_of(&[(0, 0), (1, -1), (2, -1), (3, -2), (4, -2)]));
}

#[test]
fn line_y_major_exact_pixels() {
    let mut r = renderer();
    r.line_raw(0, 0, 1, 3, 1);
    assert_eq!(painted(&r), set_of(&[(0, 0), (0, 1), (1, 2), (1, 3)]));
    let mut r = renderer();
    r.line(0, -5, 0, 5, FlaskColor::Red);
    assert_eq!(painted(&r).len(), 11);
    assert_eq!(at(&r, 0, 5), 4);
}

#[test]
fn line_lit_index() {
    let mut r = renderer();
    r.line_lit(-2, 0, 2, 0, FlaskColor::Green, Brightness::Dim);
    assert_eq!(painted(&r).len(), 5);
    assert_eq!(at(&r, -2, 0), 10);
}

#[test]
fn circle_of_radius_zero_is_its_center() {
    let mut r = renderer();
    r.circle(2, -3, 0, FlaskColor::White);
    assert_eq!(painted(&r), set_of(&[(2, -3)]));
    assert_eq!(at(&r, 2, -3), 8);
}

#[test]
fn circle_outline_exact_pixels() {
    let mut r = renderer();
    r.circle_raw(0, 0, 2, 1);
    assert_eq!(
        painted(&r),
        set_of(&[(0, 2), (0, -2), (2, 0), (-2, 0), (1, 1), (-1, 1), (1, -1), (-1, -1)])
    );
    let mut r = renderer();
    r.circle_lit(0, 0, 3, FlaskColor::Purple, Brightness::Dim);
    let mut expected = vec![(0, 3), (0, -3), (3, 0), (-3, 0), (2, 2), (-2, 2), (2, -2), (-2, -2)];
    for (a, b) in [(1, 3), (3, 1)] {
        for (sa, sb) in [(1, 1), (-1, 1), (1, -1), (-1, -1)] {
            expected.push((sa * a, sb * b));
        }
    }
    assert_eq!(painted(&r), set_of(&expected));
    assert_eq!(at(&r, 0, 3), 9);
}

/// The midpoint iteration with each state's spans filled point by point.
fn filled_by_points(radius: i64) -> BTreeSet<(i64, i64)> {
    let mut s = BTreeSet::new();
    let mut x = 0i64;
    let mut y = radius;
    let mut p = (5 - radius * 4) / 4;
    let fill = |x: i64, y: i64, s: &mut BTreeSet<(i64, i64)>| {
        if x == 0 {
            for v in -y..=y {
                s.insert((0, v));
                s.insert((v, 0));
            }
        } else if x <= y {
            for v in -x..=x {
                s.insert((v, y));
                s.insert((v, -y));
            }
            for v in -y..=y {
                if x < y {
                    s.insert((v, x));
                    s.insert((v, -x));
                }
            }
        }
    };
    fill(x, y, &mut s);
    while x < y {
        x += 1;
        if p < 0 {
            p += 2 * x + 1;
        } else {
            y -= 1;
            p += 2 * (x - y) + 1;
        }
        fill(x, y, &mut s);
    }
    s
}

#[test]
fn filled_circle_matches_point_fill() {
    for radius in 0..12u32 {
        let mut r = renderer();
        r.circle_filled_raw(0, 0, radius, 1);
        assert_eq!(painted(&r), filled_by_points(radius as i64), "radius {}", radius);
    }
    let mut r = renderer();
    r.circle_filled(0, 0, 2, FlaskColor::Yellow);
    assert_eq!(painted(&r).len(), 13);
    let mut r = renderer();
    r.circle_filled_lit(0, 0, 1, FlaskColor::Yellow, Brightness::Dark);
    assert_eq!(at(&r, 0, 0), 23);
}

#[test]
fn rectangle_outline_and_fill() {
    let mut r = renderer();
    r.rectangle(0, 0, 3, 2, FlaskColor::Brown);
    let mut expected = vec![];
    for x in 0..=3 {
        expected.push((x, 0));
        expected.push((x, 2));
    }
    expected.push((0, 1));
    expected.push((3, 1));
    assert_eq!(painted(&r), set_of(&expected));
    let mut r = renderer();
    r.rectangle_filled(-1, -1, 1, 1, FlaskColor::Brown);
    assert_eq!(painted(&r).len(), 9);
    assert_eq!(at(&r, 1, 1), 3);
    let mut r = renderer();
    r.rectangle_filled_lit(0, 0, 0, 0, FlaskColor::Brown, Brightness::VeryDark);
    assert_eq!(at(&r, 0, 0), 27);
    let mut r = renderer();
    r.rectangle_lit(0, 0, 1, 1, FlaskColor::Brown, Brightness::Dim);
    assert_eq!(at(&r, 1, 0), 11);
}

#[test]
fn reversed_rectangles() {
    let mut r = renderer();
    r.rectangle_filled(3, 0, 0, 2, FlaskColor::Brown);
    assert!(painted(&r).is_empty());
    let mut r = renderer();
    // the rows are empty, the two columns are drawn
    r.rectangle(3, 0, 0, 2, FlaskColor::Brown);
    assert_eq!(painted(&r), set_of(&[(3, 0), (3, 1), (3, 2), (0, 0), (0, 1), (0, 2)]));
}

fn sample_sprite() -> Sprite {
    Sprite::from_pixels(
        2,
        2,
        vec![vec![FlaskColor::Purple, FlaskColor::Transparent], vec![FlaskColor::Green, FlaskColor::Red]],
    )
}

#[test]
fn sprite_blit_and_flip() {
    let s = sample_sprite();
    let mut r = renderer();
    r.sprite(&s, 0, 0, false);
    assert_eq!((at(&r, 0, 0), at(&r, 1, 0), at(&r, 0, 1), at(&r, 1, 1)), (1, 2, 0, 4));
    let mut r = renderer();
    r.sprite(&s, 0, 0, true);
    assert_eq!((at(&r, 0, 0), at(&r, 1, 0), at(&r, 0, 1), at(&r, 1, 1)), (2, 1, 4, 0));
    let mut r = renderer();
    r.sprite_lit(&s, 0, 0, false, Brightness::Dim);
    assert_eq!((at(&r, 0, 0), at(&r, 1, 0), at(&r, 0, 1), at(&r, 1, 1)), (9, 10, 0, 12));
}

#[test]
fn transparent_pixels_keep_what_is_below() {
    let s = sample_sprite();
    let mut r = renderer();
    r.point_raw(0, 1, 30);
    r.sprite(&s, 0, 0, false);
    assert_eq!(at(&r, 0, 1), 30);
}

#[test]
fn dynamic_lighting() {
    let lights = vec![PointLight::new(0, 0, 10)];
    let mut r = renderer();
    r.set_brightness(Brightness::VeryDark);
    r.point_dyn_lit(9, 0, FlaskColor::Purple, &lights);
    r.point_dyn_lit(5, 0, FlaskColor::Purple, &lights);
    r.point_dyn_lit(15, 0, FlaskColor::Purple, &lights);
    assert_eq!(at(&r, 9, 0), 1 + 2 * 8);
    assert_eq!(at(&r, 5, 0), 1);
    assert_eq!(at(&r, 15, 0), 1 + 3 * 8);
    r.set_brightness(Brightness::Normal);
    r.point_dyn_lit(15, 1, FlaskColor::Purple, &lights);
    assert_eq!(at(&r, 15, 1), 1);
    let s = sample_sprite();
    let mut r = renderer();
    r.set_brightness(Brightness::Dim);
    r.sprite_dyn_lit(&s, 14, 0, false, &lights);
    assert_eq!(at(&r, 14, 0), 1 + 8);
    let mut r = renderer();
    r.sprite_dyn_lit(&s, 14, 0, false, &lights);
    assert_eq!(at(&r, 14, 0), 1);
}

fn block(w: u32, h: u32, c: FlaskColor) -> Sprite {
    Sprite::from_pixels(w, h, vec![vec![c; h as usize]; w as usize])
}

fn font() -> Font {
    let mut null_pixels = vec![vec![FlaskColor::Transparent; 5]; 3];
    null_pixels[0][0] = FlaskColor::White;
    let mut f = Font::new(Sprite::from_pixels(3, 5, null_pixels));
    f.add_glyph(b'A', block(3, 5, FlaskColor::Purple));
    f.add_glyph(b'B', block(3, 5, FlaskColor::Purple));
    f
}

#[test]
fn text_advances_the_pen() {
    let f = font();
    let mut r = renderer();
    r.text_raw(&String::from("A B"), &f, 0, 0, 1);
    let points = painted(&r);
    for x in 0..=2 {
        for y in 0..5 {
            assert!(points.contains(&(x, y)));
        }
    }
    for x in 3..=7 {
        for y in -16..16 {
            assert!(!points.contains(&(x, y)));
        }
    }
    for x in 8..=10 {
        for y in 0..5 {
            assert!(points.contains(&(x, y)));
        }
    }
    assert_eq!(points.len(), 30);
}

#[test]
fn text_newline_and_unknown_bytes() {
    let f = font();
    let mut r = renderer();
    r.text(&String::from("A\nz"), &f, 1, 0, FlaskColor::Red);
    // second line starts at x = 1, 5 + 1 rows lower; `z` has no glyph, so the fallback is drawn
    let points = painted(&r);
    assert_eq!(points.len(), 15 + 1);
    assert!(points.contains(&(1, -6)));
    assert_eq!(at(&r, 1, -6), 4);
    let mut r = renderer();
    r.text_lit(&String::from("A"), &f, 0, 0, FlaskColor::Red, Brightness::Dim);
    assert_eq!(at(&r, 2, 4), 12);
}

#[test]
fn clear_screen_blanks_the_frame() {
    let mut r = renderer();
    r.rectangle_filled(-3, -3, 3, 3, FlaskColor::Teal);
    r.clear_screen();
    assert!(painted(&r).is_empty());
}
