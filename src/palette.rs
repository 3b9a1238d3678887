use vstd::prelude::*;

use crate::brightness::Brightness;
use crate::error::FlaskError;

verus! {

/// An RGB color.
#[derive(Copy, Clone, Debug, PartialEq, Eq, Structural)]
pub struct Color {
    pub r: u8,
    pub g: u8,
    pub b: u8,
}

/// The color that a `0xRRGGBB` value names.
pub open spec fn color_of_hex(hex: u32) -> Color {
    Color {
        r: ((hex >> 16u32) & 0xffu32) as u8,
        g: ((hex >> 8u32) & 0xffu32) as u8,
        b: (hex & 0xffu32) as u8,
    }
}

impl Color {
    pub fn new(r: u8, g: u8, b: u8) -> (c: Color)
        ensures
            c == (Color { r, g, b }),
    {
        Color { r, g, b }
    }

    /// Reads a `0xRRGGBB` value.
    pub fn from_hex(hex: u32) -> (c: Color)
        ensures
            c == color_of_hex(hex),
    {
        Color {
            r: ((hex >> 16u32) & 0xffu32) as u8,
            g: ((hex >> 8u32) & 0xffu32) as u8,
            b: (hex & 0xffu32) as u8,
        }
    }
}

/// The logical colors of the built-in palette; `Transparent` is the reserved slot 0.
#[derive(Copy, Clone, Debug, PartialEq, Eq, Structural, Hash)]
pub enum FlaskColor {
    Transparent,
    Purple,
    Green,
    Brown,
    Red,
    Salad,
    Teal,
    Yellow,
    White,
}

/// The number of base colors of the built-in palette.
pub const BASE_COLOR_COUNT: u8 = 8;

impl FlaskColor {
    /// The palette index of the color in the `Normal` band.
    pub open spec fn spec_index(self) -> u8 {
        match self {
            FlaskColor::Transparent => 0,
            FlaskColor::Purple => 1,
            FlaskColor::Green => 2,
            FlaskColor::Brown => 3,
            FlaskColor::Red => 4,
            FlaskColor::Salad => 5,
            FlaskColor::Teal => 6,
            FlaskColor::Yellow => 7,
            FlaskColor::White => 8,
        }
    }

    /// The color whose index is `i`, if any.
    pub open spec fn spec_from_index(i: u8) -> Option<FlaskColor> {
        if i == 0 {
            Some(FlaskColor::Transparent)
        } else if i == 1 {
            Some(FlaskColor::Purple)
        } else if i == 2 {
            Some(FlaskColor::Green)
        } else if i == 3 {
            Some(FlaskColor::Brown)
        } else if i == 4 {
            Some(FlaskColor::Red)
        } else if i == 5 {
            Some(FlaskColor::Salad)
        } else if i == 6 {
            Some(FlaskColor::Teal)
        } else if i == 7 {
            Some(FlaskColor::Yellow)
        } else if i == 8 {
            Some(FlaskColor::White)
        } else {
            None
        }
    }

    pub fn index(&self) -> (r: u8)
        ensures
            r == self.spec_index(),
            r <= BASE_COLOR_COUNT,
    {
        match self {
            FlaskColor::Transparent => 0,
            FlaskColor::Purple => 1,
            FlaskColor::Green => 2,
            FlaskColor::Brown => 3,
            FlaskColor::Red => 4,
            FlaskColor::Salad => 5,
            FlaskColor::Teal => 6,
            FlaskColor::Yellow => 7,
            FlaskColor::White => 8,
        }
    }

    pub fn from_index(i: u8) -> (r: Option<FlaskColor>)
        ensures
            r == Self::spec_from_index(i),
            r is Some <==> i <= BASE_COLOR_COUNT,
            r matches Some(c) ==> c.spec_index() == i,
    {
        if i == 0 {
            Some(FlaskColor::Transparent)
        } else if i == 1 {
            Some(FlaskColor::Purple)
        } else if i == 2 {
            Some(FlaskColor::Green)
        } else if i == 3 {
            Some(FlaskColor::Brown)
        } else if i == 4 {
            Some(FlaskColor::Red)
        } else if i == 5 {
            Some(FlaskColor::Salad)
        } else if i == 6 {
            Some(FlaskColor::Teal)
        } else if i == 7 {
            Some(FlaskColor::Yellow)
        } else if i == 8 {
            Some(FlaskColor::White)
        } else {
            None
        }
    }

    /// The number of base colors, the distance between two brightness bands.
    pub fn count() -> (r: u8)
        ensures
            r == BASE_COLOR_COUNT,
    {
        BASE_COLOR_COUNT
    }
}

/// The final palette index of a logical color drawn at a brightness.
pub open spec fn spec_resolve_index(color: int, brightness: Brightness, base_color_count: int) -> int {
    color + brightness.level() * base_color_count
}

/// `color + band * base_color_count`: the index of `color` in the band of `brightness`.
pub fn resolve_index(color: FlaskColor, brightness: Brightness, base_color_count: u8) -> (r: u8)
    requires
        spec_resolve_index(color.spec_index() as int, brightness, base_color_count as int) <= 255,
    ensures
        r == spec_resolve_index(color.spec_index() as int, brightness, base_color_count as int),
{
    resolve_raw_index(color.index(), brightness, base_color_count)
}

/// `color_index + band * base_color_count` on a raw index.
pub fn resolve_raw_index(color_index: u8, brightness: Brightness, base_color_count: u8) -> (r: u8)
    requires
        spec_resolve_index(color_index as int, brightness, base_color_count as int) <= 255,
    ensures
        r == spec_resolve_index(color_index as int, brightness, base_color_count as int),
{
    let band = brightness.band();
    assert(band * base_color_count <= 255) by (nonlinear_arith)
        requires
            color_index + band * base_color_count <= 255,
            color_index >= 0,
    ;
    color_index + band * base_color_count
}

/// `resolve_index` at `Normal` is the base color index itself.
pub proof fn lemma_resolve_normal(color: FlaskColor, base_color_count: u8)
    ensures
        spec_resolve_index(color.spec_index() as int, Brightness::Normal, base_color_count as int)
            == color.spec_index(),
{
}

/// The built-in palettes.
#[derive(Copy, Clone, Debug, PartialEq, Eq, Structural)]
pub enum FlaskPalette {
    Default,
}

/// The base colors of a built-in palette.
pub open spec fn spec_main_colors(palette: FlaskPalette) -> Seq<Color> {
    match palette {
        FlaskPalette::Default => seq![
            color_of_hex(0x2f142f),
            color_of_hex(0x2a584f),
            color_of_hex(0x774448),
            color_of_hex(0xc6505a),
            color_of_hex(0x74a33f),
            color_of_hex(0x6eb8a8),
            color_of_hex(0xee9c5d),
            color_of_hex(0xfcffc0),
        ],
    }
}

/// The base colors of a built-in palette.
pub fn get_main_colors(palette: FlaskPalette) -> (r: Vec<Color>)
    ensures
        r@ == spec_main_colors(palette),
{
    match palette {
        FlaskPalette::Default => {
            let mut main_colors: Vec<Color> = Vec::new();
            main_colors.push(Color::from_hex(0x2f142f));
            main_colors.push(Color::from_hex(0x2a584f));
            main_colors.push(Color::from_hex(0x774448));
            main_colors.push(Color::from_hex(0xc6505a));
            main_colors.push(Color::from_hex(0x74a33f));
            main_colors.push(Color::from_hex(0x6eb8a8));
            main_colors.push(Color::from_hex(0xee9c5d));
            main_colors.push(Color::from_hex(0xfcffc0));
            main_colors
        },
    }
}

/// Tenths by which a band scales each channel: 1.0, 0.7, 0.2 and 0.1.
pub open spec fn band_tenths(b: Brightness) -> int {
    match b {
        Brightness::Normal => 10,
        Brightness::Dim => 7,
        Brightness::Dark => 2,
        Brightness::VeryDark => 1,
    }
}

/// A channel scaled by the band's factor, rounded to the nearest integer (halves up).
pub open spec fn scaled_channel(c: u8, b: Brightness) -> u8 {
    ((c * band_tenths(b) + 5) / 10) as u8
}

/// A color with each channel scaled for the band.
pub open spec fn scaled_color(c: Color, b: Brightness) -> Color {
    Color { r: scaled_channel(c.r, b), g: scaled_channel(c.g, b), b: scaled_channel(c.b, b) }
}

/// The base colors as they look in one band.
pub open spec fn band_colors(base: Seq<Color>, b: Brightness) -> Seq<Color> {
    Seq::new(base.len(), |i: int| scaled_color(base[i], b))
}

/// The four bands in order: `Normal`, `Dim`, `Dark`, `VeryDark`.
pub open spec fn banded(base: Seq<Color>) -> Seq<Color> {
    band_colors(base, Brightness::Normal) + band_colors(base, Brightness::Dim) + band_colors(
        base,
        Brightness::Dark,
    ) + band_colors(base, Brightness::VeryDark)
}

/// The flat RGB bytes of a color sequence.
pub open spec fn rgb_bytes(colors: Seq<Color>) -> Seq<u8> {
    Seq::new(3 * colors.len(), |j: int| channel(colors[j / 3], j % 3))
}

/// Channel `k` of a color: 0 red, 1 green, 2 blue.
pub open spec fn channel(c: Color, k: int) -> u8 {
    if k == 0 {
        c.r
    } else if k == 1 {
        c.g
    } else {
        c.b
    }
}

/// A palette size that the renderer accepts.
pub open spec fn valid_palette_size(n: int) -> bool {
    0 < n && n % 4 == 0 && n <= 255
}

fn scale_channel(c: u8, b: Brightness) -> (r: u8)
    ensures
        r == scaled_channel(c, b),
{
    let tenths: u16 = match b {
        Brightness::Normal => 10,
        Brightness::Dim => 7,
        Brightness::Dark => 2,
        Brightness::VeryDark => 1,
    };
    assert(c as u16 * tenths + 5 <= 2555) by (nonlinear_arith)
        requires
            c <= 255,
            tenths <= 10,
    ;
    let v: u16 = (c as u16 * tenths + 5) / 10;
    v as u8
}

fn push_band(out: &mut Vec<Color>, base: &Vec<Color>, b: Brightness)
    ensures
        final(out)@ == old(out)@ + band_colors(base@, b),
{
    let n = base.len();
    let ghost start = out@;
    let mut i: usize = 0;
    while i < n
        invariant
            n == base.len(),
            i <= n,
            out@ == start + band_colors(base@, b).take(i as int),
        decreases n - i,
    {
        let c = base[i];
        out.push(Color { r: scale_channel(c.r, b), g: scale_channel(c.g, b), b: scale_channel(c.b, b) });
        proof {
            assert(band_colors(base@, b).take(i + 1) =~= band_colors(base@, b).take(i as int).push(
                scaled_color(c, b),
            ));
        }
        i = i + 1;
    }
    proof {
        assert(band_colors(base@, b).take(n as int) =~= band_colors(base@, b));
    }
}

/// The four brightness bands of the base colors, one after the other.
pub fn derive_bands(base: &Vec<Color>) -> (r: Vec<Color>)
    ensures
        r@ == banded(base@),
{
    let mut colors: Vec<Color> = Vec::new();
    push_band(&mut colors, base, Brightness::Normal);
    push_band(&mut colors, base, Brightness::Dim);
    push_band(&mut colors, base, Brightness::Dark);
    push_band(&mut colors, base, Brightness::VeryDark);
    proof {
        assert(colors@ =~= banded(base@));
    }
    colors
}

/// The full palette of a built-in palette: its base colors in the four brightness bands.
pub fn load_palette(palette: FlaskPalette) -> (r: Vec<Color>)
    ensures
        r@ == banded(spec_main_colors(palette)),
{
    let main_colors = get_main_colors(palette);
    derive_bands(&main_colors)
}

/// The flat RGB bytes of a color list.
pub fn flatten_colors(colors: &Vec<Color>) -> (r: Vec<u8>)
    requires
        3 * colors.len() <= usize::MAX,
    ensures
        r@ == rgb_bytes(colors@),
{
    let n = colors.len();
    let mut out: Vec<u8> = Vec::new();
    let mut i: usize = 0;
    while i < n
        invariant
            n == colors.len(),
            i <= n,
            out@ =~= rgb_bytes(colors@.take(i as int)),
        decreases n - i,
    {
        let c = colors[i];
        out.push(c.r);
        out.push(c.g);
        out.push(c.b);
        proof {
            let next = colors@.take(i + 1);
            assert(out@ =~= rgb_bytes(next)) by {
                assert forall|j: int| 0 <= j < 3 * (i + 1) implies #[trigger] out@[j] == rgb_bytes(
                    next,
                )[j] by {
                    if j < 3 * i {
                        assert(colors@.take(i as int)[j / 3] == next[j / 3]);
                    }
                }
            }
        }
        i = i + 1;
    }
    proof {
        assert(colors@.take(n as int) =~= colors@);
    }
    out
}

/// The RGB bytes of a full palette, after checking its size.
pub fn palette_texture_from_color_vec(palette: &Vec<Color>) -> (r: Result<Vec<u8>, FlaskError>)
    ensures
        r is Err <==> !valid_palette_size(palette.len() as int),
        r matches Err(e) ==> e == FlaskError::InvalidPaletteSize,
        r matches Ok(t) ==> t@ == rgb_bytes(palette@),
{
    if palette.len() == 0 || palette.len() % 4 != 0 || palette.len() > 255 {
        return Err(FlaskError::InvalidPaletteSize);
    }
    Ok(flatten_colors(palette))
}

/// The palette texture built from base colors: the four bands' RGB bytes, after checking the
/// base color count.
pub fn build_palette_texture(base_colors: &Vec<Color>) -> (r: Result<Vec<u8>, FlaskError>)
    ensures
        r is Err <==> !valid_palette_size(base_colors.len() as int),
        r matches Err(e) ==> e == FlaskError::InvalidPaletteSize,
        r matches Ok(t) ==> t@ == rgb_bytes(banded(base_colors@)),
{
    if base_colors.len() == 0 || base_colors.len() % 4 != 0 || base_colors.len() > 255 {
        return Err(FlaskError::InvalidPaletteSize);
    }
    let colors = derive_bands(base_colors);
    Ok(flatten_colors(&colors))
}

/// Layout of the palette texture: `4 * n * 3` bytes, and the byte for channel `k` of base color
/// `i` in band `b` is that channel scaled by the band's factor.
pub proof fn lemma_palette_texture_layout(base: Seq<Color>, b: Brightness, i: int, k: int)
    requires
        valid_palette_size(base.len() as int),
        0 <= i < base.len(),
        0 <= k < 3,
    ensures
        rgb_bytes(banded(base)).len() == base.len() * 4 * 3,
        rgb_bytes(banded(base))[3 * (b.level() * base.len() + i) + k] == channel(
            scaled_color(base[i], b),
            k,
        ),
{
    let n = base.len() as int;
    let j = b.level() * n + i;
    assert(banded(base).len() == 4 * n);
    assert(0 <= j < 4 * n) by (nonlinear_arith)
        requires
            0 <= i < n,
            j == b.level() * n + i,
            b.level() <= 3,
    ;
    assert((3 * j + k) / 3 == j && (3 * j + k) % 3 == k);
    assert(banded(base)[j] == scaled_color(base[i], b)) by {
        match b {
            Brightness::Normal => {},
            Brightness::Dim => {},
            Brightness::Dark => {},
            Brightness::VeryDark => {},
        }
    }
}

} // verus!
