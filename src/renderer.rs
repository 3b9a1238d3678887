use vstd::prelude::*;

use crate::brightness::Brightness;
use crate::error::FlaskError;
use crate::frame_buffer::FrameBuffer;
use crate::lights::{PointLight, lighting_at, lit_by};
use crate::font::Font;
use crate::sprite::Sprite;
use crate::raster::{
    abs, circle_p0, circle_part, circle_pixels, circle_prefix, circle_reached, circle_state,
    col_span, fill_octet, line_point, line_points, line_prefix, line_sign, line_start, octet,
    row_span, x_major, x_major_offset, y_major_offset, lemma_circle_prefix_done,
    lemma_circle_prefix_first, lemma_circle_prefix_next, lemma_div_mod_step,
    lemma_line_horizontal, lemma_line_prefix_first, lemma_line_prefix_next, lemma_line_vertical,
    rect_area, rect_outline,
};
use crate::palette::{
    BASE_COLOR_COUNT, Color, FlaskColor, palette_texture_from_color_vec, resolve_index,
    rgb_bytes, spec_resolve_index, valid_palette_size,
};

verus! {

/// Largest coordinate magnitude the rasterizers hand to `plot`.
pub open spec fn coord_bound() -> int {
    0x10_0000_0000_0000_0000_0000_0000
}

/// Largest coordinate magnitude of a line's ends inside the rasterizers.
pub open spec fn span_bound() -> int {
    0x40_0000_0000_0000_0000
}

/// The map that paints every point of `s` with `c`.
pub open spec fn solid(s: Set<(int, int)>, c: u8) -> Map<(int, int), u8> {
    Map::new(|p: (int, int)| s.contains(p), |p: (int, int)| c)
}

/// The final index of a logical color in a band of the built-in palette.
pub open spec fn lit_index(color: FlaskColor, b: Brightness) -> u8 {
    spec_resolve_index(color.spec_index() as int, b, BASE_COLOR_COUNT as int) as u8
}

/// The index a blit writes for color `c` at world point `p`: the raw `Normal` index, the index
/// in a fixed band, or the index in the band the lights give there.
pub open spec fn tint_index(
    ambient: Brightness,
    band: Option<Brightness>,
    lights: Option<Seq<PointLight>>,
    c: FlaskColor,
    p: (int, int),
) -> u8 {
    match lights {
        Some(ls) => lit_index(c, lit_by(ambient, ls, p.0, p.1)),
        None => match band {
            Some(b) => lit_index(c, b),
            None => c.spec_index(),
        },
    }
}

/// The source pixel of a `w`-wide sprite drawn at `(x, y)` that lands on `p`.
pub open spec fn sprite_source(w: int, x: int, y: int, flip: bool, p: (int, int)) -> (int, int) {
    let dx = p.0 - x;
    (
        if flip {
            w - 1 - dx
        } else {
            dx
        },
        p.1 - y,
    )
}

/// What blitting `s` at `(x, y)` paints once the source pixels before `(i, j)`, column by
/// column, are done: each opaque source pixel's landing point, with its tinted index.
pub open spec fn blit_shade(
    s: Sprite,
    x: int,
    y: int,
    flip: bool,
    ambient: Brightness,
    band: Option<Brightness>,
    lights: Option<Seq<PointLight>>,
    i: int,
    j: int,
) -> Map<(int, int), u8> {
    Map::new(
        |p: (int, int)|
            {
                let src = sprite_source(s.spec_width() as int, x, y, flip, p);
                &&& 0 <= src.0 < s.spec_width()
                &&& 0 <= src.1 < s.spec_height()
                &&& (src.0 < i || (src.0 == i && src.1 < j))
                &&& s.color_at(src.0, src.1) != FlaskColor::Transparent
            },
        |p: (int, int)|
            {
                let src = sprite_source(s.spec_width() as int, x, y, flip, p);
                tint_index(ambient, band, lights, s.color_at(src.0, src.1), p)
            },
    )
}

/// The whole sprite blitted at `(x, y)`, mirrored horizontally when `flip`.
pub open spec fn sprite_image(
    s: Sprite,
    x: int,
    y: int,
    flip: bool,
    ambient: Brightness,
    band: Option<Brightness>,
    lights: Option<Seq<PointLight>>,
) -> Map<(int, int), u8> {
    blit_shade(s, x, y, flip, ambient, band, lights, s.spec_width() as int, 0)
}

/// The view of an optional light list.
pub open spec fn lights_view(lights: Option<&Vec<PointLight>>) -> Option<Seq<PointLight>> {
    match lights {
        Some(ls) => Some(ls@),
        None => None,
    }
}

/// Bytes that draw a glyph: everything but space and newline.
pub open spec fn draws_glyph(ch: u8) -> bool {
    ch != 32 && ch != 10
}

/// Pen position before byte `i` of `s`, written from `(x0, y0)`: a space advances by the
/// fallback glyph's width plus one, a newline returns to `x0` one line height plus one lower,
/// and a glyph advances by its own width plus one.
pub open spec fn text_pen(font: Font, s: Seq<u8>, x0: int, y0: int, i: nat) -> (int, int)
    decreases i,
{
    if i == 0 {
        (x0, y0)
    } else {
        let prev = text_pen(font, s, x0, y0, (i - 1) as nat);
        let ch = s[i - 1];
        if ch == 32 {
            (prev.0 + font.null_glyph().spec_width() + 1, prev.1)
        } else if ch == 10 {
            (x0, prev.1 - font.null_glyph().spec_height() - 1)
        } else {
            (prev.0 + font.glyph(ch).spec_width() + 1, prev.1)
        }
    }
}

/// The opaque pixels of glyph `g` with its lower-left corner at `pen`.
pub open spec fn glyph_points(g: Sprite, pen: (int, int)) -> Set<(int, int)> {
    Set::new(
        |p: (int, int)|
            0 <= p.0 - pen.0 < g.spec_width() && 0 <= p.1 - pen.1 < g.spec_height() && g.color_at(
                p.0 - pen.0,
                p.1 - pen.1,
            ) != FlaskColor::Transparent,
    )
}

/// The pixels of the glyphs of the first `n` bytes.
pub open spec fn text_prefix(font: Font, s: Seq<u8>, x0: int, y0: int, n: nat) -> Set<(int, int)> {
    Set::new(
        |p: (int, int)|
            exists|i: nat|
                i < n && draws_glyph(s[i as int]) && #[trigger] glyph_points(
                    font.glyph(s[i as int]),
                    text_pen(font, s, x0, y0, i),
                ).contains(p),
    )
}

/// The pixels of the text `s` written from `(x0, y0)`.
pub open spec fn text_points(font: Font, s: Seq<u8>, x0: int, y0: int) -> Set<(int, int)> {
    text_prefix(font, s, x0, y0, s.len())
}

/// One more byte extends the text prefix by its glyph, if it draws one.
pub proof fn lemma_text_prefix_next(font: Font, s: Seq<u8>, x0: int, y0: int, n: nat)
    requires
        n < s.len(),
    ensures
        text_prefix(font, s, x0, y0, n + 1) == if draws_glyph(s[n as int]) {
            text_prefix(font, s, x0, y0, n).union(glyph_points(font.glyph(s[n as int]), text_pen(font, s, x0, y0, n)))
        } else {
            text_prefix(font, s, x0, y0, n)
        },
{
    let a = text_prefix(font, s, x0, y0, n + 1);
    let b = if draws_glyph(s[n as int]) {
        text_prefix(font, s, x0, y0, n).union(glyph_points(font.glyph(s[n as int]), text_pen(font, s, x0, y0, n)))
    } else {
        text_prefix(font, s, x0, y0, n)
    };
    assert forall|p: (int, int)| a.contains(p) <==> b.contains(p) by {
        if a.contains(p) {
            let i = choose|i: nat|
                i < n + 1 && draws_glyph(s[i as int]) && #[trigger] glyph_points(
                    font.glyph(s[i as int]),
                    text_pen(font, s, x0, y0, i),
                ).contains(p);
            if i < n {
                assert(text_prefix(font, s, x0, y0, n).contains(p));
            }
        }
        if text_prefix(font, s, x0, y0, n).contains(p) {
            let i = choose|i: nat|
                i < n && draws_glyph(s[i as int]) && #[trigger] glyph_points(
                    font.glyph(s[i as int]),
                    text_pen(font, s, x0, y0, i),
                ).contains(p);
            assert(i < n + 1);
        }
        if draws_glyph(s[n as int]) && glyph_points(font.glyph(s[n as int]), text_pen(font, s, x0, y0, n)).contains(p) {
            assert(n < n + 1);
        }
    }
    assert(a =~= b);
}

/// Session state of the software renderer: the frame, the palette, the camera and the
/// background and ambient brightness settings.
pub struct Renderer {
    frame_buffer: FrameBuffer,
    palette_texture: Vec<u8>,
    palette_size: u32,
    camera_x: i64,
    camera_y: i64,
    camera_origin_x: i64,
    camera_origin_y: i64,
    background_color_index: u8,
    brightness: Brightness,
}

impl Renderer {
    pub closed spec fn wf(&self) -> bool {
        &&& self.frame_buffer.wf()
        &&& self.camera_origin_x == self.frame_buffer.width() / 2
        &&& self.camera_origin_y == self.frame_buffer.height() / 2
        &&& valid_palette_size(self.palette_size as int)
        &&& self.palette_texture@.len() == 3 * self.palette_size
    }

    pub closed spec fn frame(&self) -> FrameBuffer {
        self.frame_buffer
    }

    pub closed spec fn palette(&self) -> Seq<u8> {
        self.palette_texture@
    }

    pub closed spec fn palette_len(&self) -> int {
        self.palette_size as int
    }

    pub closed spec fn camera_x(&self) -> int {
        self.camera_x as int
    }

    pub closed spec fn camera_y(&self) -> int {
        self.camera_y as int
    }

    /// Buffer position of world `(0, 0)` when the camera is at the origin: half the frame.
    pub closed spec fn origin_x(&self) -> int {
        self.camera_origin_x as int
    }

    pub closed spec fn origin_y(&self) -> int {
        self.camera_origin_y as int
    }

    pub closed spec fn background(&self) -> u8 {
        self.background_color_index
    }

    pub closed spec fn ambient(&self) -> Brightness {
        self.brightness
    }

    /// A well-formed renderer holds a well-formed frame, whose `present()` bytes are the cells of
    /// `pixel` row by row.
    pub proof fn lemma_frame_wf(&self)
        requires
            self.wf(),
        ensures
            self.frame().wf(),
    {
    }

    /// Buffer column of world column `x`.
    pub open spec fn buffer_x(&self, x: int) -> int {
        x - self.camera_x() + self.origin_x()
    }

    /// Buffer row of world row `y`.
    pub open spec fn buffer_y(&self, y: int) -> int {
        y - self.camera_y() + self.origin_y()
    }

    /// World point shown at buffer position `(bx, by)`.
    pub open spec fn world_at(&self, bx: int, by: int) -> (int, int) {
        (bx + self.camera_x() - self.origin_x(), by + self.camera_y() - self.origin_y())
    }

    /// Everything but the frame's contents is the same.
    pub open spec fn same_setup(&self, other: &Renderer) -> bool {
        &&& self.frame().width() == other.frame().width()
        &&& self.frame().height() == other.frame().height()
        &&& self.palette() == other.palette()
        &&& self.palette_len() == other.palette_len()
        &&& self.camera_x() == other.camera_x()
        &&& self.camera_y() == other.camera_y()
        &&& self.origin_x() == other.origin_x()
        &&& self.origin_y() == other.origin_y()
        &&& self.background() == other.background()
        &&& self.ambient() == other.ambient()
    }

    /// `new` is `old` with every visible world point of `shade` painted with its index, and every
    /// other pixel kept.
    pub open spec fn painted(old: Renderer, new: Renderer, shade: Map<(int, int), u8>) -> bool {
        &&& new.wf()
        &&& new.same_setup(&old)
        &&& forall|bx: int, by: int|
            old.frame().in_bounds(bx, by) ==> #[trigger] new.frame().pixel(bx, by) == if shade.contains_key(
                old.world_at(bx, by),
            ) {
                shade[old.world_at(bx, by)]
            } else {
                old.frame().pixel(bx, by)
            }
    }

    /// Painting is sequential: what a later call paints wins.
    pub proof fn lemma_painted_then(
        a: Renderer,
        b: Renderer,
        d: Renderer,
        m1: Map<(int, int), u8>,
        m2: Map<(int, int), u8>,
    )
        requires
            Self::painted(a, b, m1),
            Self::painted(b, d, m2),
        ensures
            Self::painted(a, d, m1.union_prefer_right(m2)),
    {
        assert forall|bx: int, by: int| a.frame().in_bounds(bx, by) implies #[trigger] d.frame().pixel(
            bx,
            by,
        ) == if m1.union_prefer_right(m2).contains_key(a.world_at(bx, by)) {
            m1.union_prefer_right(m2)[a.world_at(bx, by)]
        } else {
            a.frame().pixel(bx, by)
        } by {
            assert(b.frame().in_bounds(bx, by));
            assert(d.frame().pixel(bx, by) == if m2.contains_key(b.world_at(bx, by)) {
                m2[b.world_at(bx, by)]
            } else {
                b.frame().pixel(bx, by)
            });
            assert(b.frame().pixel(bx, by) == if m1.contains_key(a.world_at(bx, by)) {
                m1[a.world_at(bx, by)]
            } else {
                a.frame().pixel(bx, by)
            });
        }
    }

    /// Painting a solid set and then another with the same index paints their union.
    pub proof fn lemma_solid_then(
        a: Renderer,
        b: Renderer,
        d: Renderer,
        s1: Set<(int, int)>,
        s2: Set<(int, int)>,
        c: u8,
    )
        requires
            Self::painted(a, b, solid(s1, c)),
            Self::painted(b, d, solid(s2, c)),
        ensures
            Self::painted(a, d, solid(s1.union(s2), c)),
    {
        Self::lemma_painted_then(a, b, d, solid(s1, c), solid(s2, c));
        assert(solid(s1, c).union_prefer_right(solid(s2, c)) =~= solid(s1.union(s2), c));
    }

    /// Painting nothing leaves the frame as it is.
    pub proof fn lemma_painted_nothing(a: Renderer, c: u8)
        requires
            a.wf(),
        ensures
            Self::painted(a, a, Map::empty()),
            Self::painted(a, a, solid(Set::empty(), c)),
    {
        assert(solid(Set::empty(), c) =~= Map::empty());
    }

    /// Paints one world point given in wide coordinates.
    fn plot(&mut self, x: i128, y: i128, color: u8)
        requires
            old(self).wf(),
            -coord_bound() <= x <= coord_bound(),
            -coord_bound() <= y <= coord_bound(),
        ensures
            Self::painted(*old(self), *final(self), solid(set![(x as int, y as int)], color)),
    {
        let bx: i128 = x - self.camera_x as i128 + self.camera_origin_x as i128;
        let by: i128 = y - self.camera_y as i128 + self.camera_origin_y as i128;
        if bx < 0 || by < 0 || bx > u32::MAX as i128 || by > u32::MAX as i128 {
            proof {
                self.frame_buffer.lemma_size();
            }
            return;
        }
        self.frame_buffer.set_pixel(bx as u32, by as u32, color);
    }

    /// Paints world point `(x, y)` with palette index `color`. Points whose buffer position is
    /// negative are dropped here; those past the frame are dropped by the frame buffer.
    pub fn point_raw(&mut self, x: i64, y: i64, color: u8)
        requires
            old(self).wf(),
        ensures
            Self::painted(*old(self), *final(self), solid(set![(x as int, y as int)], color)),
            old(self).buffer_x(x as int) < 0 || old(self).buffer_y(y as int) < 0 ==> final(self).frame().pixels() == old(self).frame().pixels(),
    {
        self.plot(x as i128, y as i128, color);
        proof {
            if old(self).buffer_x(x as int) < 0 || old(self).buffer_y(y as int) < 0 {
                self.frame().lemma_same_pixels(old(self).frame());
            }
        }
    }

    /// Paints `(x, y)` with the `Normal` index of `color`.
    pub fn point(&mut self, x: i64, y: i64, color: FlaskColor)
        requires
            old(self).wf(),
        ensures
            Self::painted(*old(self), *final(self), solid(set![(x as int, y as int)], color.spec_index())),
    {
        self.point_raw(x, y, color.index());
    }

    /// Paints `(x, y)` with the index of `color` in the band of `brightness`.
    pub fn point_lit(&mut self, x: i64, y: i64, color: FlaskColor, brightness: Brightness)
        requires
            old(self).wf(),
        ensures
            Self::painted(*old(self), *final(self), solid(set![(x as int, y as int)], lit_index(color, brightness))),
    {
        let idx = resolve_index(color, brightness, FlaskColor::count());
        self.point_raw(x, y, idx);
    }

    /// Bresenham line from `(x1, y1)` to `(x2, y2)`, both ends included.
    pub fn line_raw(&mut self, x1: i64, y1: i64, x2: i64, y2: i64, color: u8)
        requires
            old(self).wf(),
        ensures
            Self::painted(
                *old(self),
                *final(self),
                solid(line_points(x1 as int, y1 as int, x2 as int, y2 as int), color),
            ),
    {
        self.line_wide(x1 as i128, y1 as i128, x2 as i128, y2 as i128, color);
    }

    fn line_wide(&mut self, x1: i128, y1: i128, x2: i128, y2: i128, color: u8)
        requires
            old(self).wf(),
            -span_bound() <= x1 <= span_bound(),
            -span_bound() <= y1 <= span_bound(),
            -span_bound() <= x2 <= span_bound(),
            -span_bound() <= y2 <= span_bound(),
        ensures
            Self::painted(
                *old(self),
                *final(self),
                solid(line_points(x1 as int, y1 as int, x2 as int, y2 as int), color),
            ),
    {
        let ghost (gx1, gy1, gx2, gy2) = (x1 as int, y1 as int, x2 as int, y2 as int);
        let ax: i128 = x1;
        let ay: i128 = y1;
        let bx: i128 = x2;
        let by: i128 = y2;
        let dx: i128 = bx - ax;
        let dy: i128 = by - ay;
        let adx: i128 = if dx < 0 { -dx } else { dx };
        let ady: i128 = if dy < 0 { -dy } else { dy };
        let s: i128 = if (dx < 0 && dy < 0) || (dx > 0 && dy > 0) { 1 } else { -1 };
        let ghost start = line_start(gx1, gy1, gx2, gy2);
        if ady <= adx {
            let mut x: i128;
            let mut y: i128;
            let xe: i128;
            if dx >= 0 {
                x = ax;
                y = ay;
                xe = bx;
            } else {
                x = bx;
                y = by;
                xe = ax;
            }
            let mut px: i128 = 2 * ady - adx;
            let ghost mut i: int = 0;
            let ghost mut k: int = 0;
            self.plot(x, y, color);
            proof {
                lemma_line_prefix_first(gx1, gy1, gx2, gy2);
                if adx > 0 {
                    assert(2 * 0 * ady == 0);
                    vstd::arithmetic::div_mod::lemma_fundamental_div_mod_converse(adx as int, 2 * adx, 0, adx as int);
                    assert(x_major_offset(0, adx as int, ady as int) == 0);
                }
                assert(line_point(gx1, gy1, gx2, gy2, 0) == (x as int, y as int));
            }
            while x < xe
                invariant
                    Self::painted(*old(self), *self, solid(line_prefix(gx1, gy1, gx2, gy2, i), color)),
                    x_major(gx1, gy1, gx2, gy2),
                    start == line_start(gx1, gy1, gx2, gy2),
                    gx1 == x1 as int,
                    gy1 == y1 as int,
                    gx2 == x2 as int,
                    gy2 == y2 as int,
                    -span_bound() <= x1 <= span_bound(),
                    -span_bound() <= y1 <= span_bound(),
                    -span_bound() <= x2 <= span_bound(),
                    -span_bound() <= y2 <= span_bound(),
                    s == line_sign(gx2 - gx1, gy2 - gy1),
                    adx == abs(gx2 - gx1),
                    ady == abs(gy2 - gy1),
                    0 <= ady <= adx,
                    -span_bound() <= start.0 <= span_bound(),
                    -span_bound() <= start.1 <= span_bound(),
                    xe == start.0 + adx,
                    0 <= i <= adx,
                    x == start.0 + i,
                    y == start.1 + s * k,
                    start.1 - k <= y <= start.1 + k,
                    s == 1 || s == -1,
                    0 <= k <= i,
                    adx > 0 ==> k == x_major_offset(i, adx as int, ady as int),
                    adx > 0 ==> px == (2 * i * ady + adx) % (2 * adx) + 2 * ady - 2 * adx,
                decreases xe - x,
            {
                proof {
                    assert(0 <= 2 * i * ady) by (nonlinear_arith)
                        requires
                            i >= 0,
                            ady >= 0,
                    ;
                    lemma_div_mod_step(2 * i * ady + adx, 2 * adx, 2 * ady);
                    assert(2 * (i + 1) * ady + adx == 2 * i * ady + adx + 2 * ady) by (nonlinear_arith);
                }
                x = x + 1;
                if px < 0 {
                    px = px + 2 * ady;
                } else {
                    y = y + s;
                    px = px + 2 * (ady - adx);
                    proof {
                        assert(s * (k + 1) == s * k + s) by (nonlinear_arith);
                        k = k + 1;
                    }
                }
                proof {
                    i = i + 1;
                }
                let ghost before = *self;
                self.plot(x, y, color);
                proof {
                    assert(line_point(gx1, gy1, gx2, gy2, i) == (x as int, y as int));
                    Self::lemma_solid_then(
                        *old(self),
                        before,
                        *self,
                        line_prefix(gx1, gy1, gx2, gy2, i - 1),
                        set![(x as int, y as int)],
                        color,
                    );
                    lemma_line_prefix_next(gx1, gy1, gx2, gy2, i - 1);
                }
            }
        } else {
            let mut x: i128;
            let mut y: i128;
            let ye: i128;
            if dy >= 0 {
                x = ax;
                y = ay;
                ye = by;
            } else {
                x = bx;
                y = by;
                ye = ay;
            }
            let mut py: i128 = 2 * adx - ady;
            let ghost mut i: int = 0;
            let ghost mut k: int = 0;
            self.plot(x, y, color);
            proof {
                lemma_line_prefix_first(gx1, gy1, gx2, gy2);
                assert(2 * 0 * adx == 0);
                vstd::arithmetic::div_mod::lemma_fundamental_div_mod_converse(ady - 1, 2 * ady, 0, ady - 1);
                assert(y_major_offset(0, adx as int, ady as int) == 0);
                assert(line_point(gx1, gy1, gx2, gy2, 0) == (x as int, y as int));
            }
            while y < ye
                invariant
                    Self::painted(*old(self), *self, solid(line_prefix(gx1, gy1, gx2, gy2, i), color)),
                    !x_major(gx1, gy1, gx2, gy2),
                    start == line_start(gx1, gy1, gx2, gy2),
                    gx1 == x1 as int,
                    gy1 == y1 as int,
                    gx2 == x2 as int,
                    gy2 == y2 as int,
                    -span_bound() <= x1 <= span_bound(),
                    -span_bound() <= y1 <= span_bound(),
                    -span_bound() <= x2 <= span_bound(),
                    -span_bound() <= y2 <= span_bound(),
                    s == line_sign(gx2 - gx1, gy2 - gy1),
                    adx == abs(gx2 - gx1),
                    ady == abs(gy2 - gy1),
                    0 <= adx < ady,
                    -span_bound() <= start.0 <= span_bound(),
                    -span_bound() <= start.1 <= span_bound(),
                    ye == start.1 + ady,
                    0 <= i <= ady,
                    y == start.1 + i,
                    x == start.0 + s * k,
                    start.0 - k <= x <= start.0 + k,
                    s == 1 || s == -1,
                    0 <= k <= i,
                    k == y_major_offset(i, adx as int, ady as int),
                    py == (2 * i * adx + ady - 1) % (2 * ady) + 2 * adx + 1 - 2 * ady,
                decreases ye - y,
            {
                proof {
                    assert(0 <= 2 * i * adx) by (nonlinear_arith)
                        requires
                            i >= 0,
                            adx >= 0,
                    ;
                    lemma_div_mod_step(2 * i * adx + ady - 1, 2 * ady, 2 * adx);
                    assert(2 * (i + 1) * adx + ady - 1 == 2 * i * adx + ady - 1 + 2 * adx) by (nonlinear_arith);
                }
                y = y + 1;
                if py <= 0 {
                    py = py + 2 * adx;
                } else {
                    x = x + s;
                    py = py + 2 * (adx - ady);
                    proof {
                        assert(s * (k + 1) == s * k + s) by (nonlinear_arith);
                        k = k + 1;
                    }
                }
                proof {
                    i = i + 1;
                }
                let ghost before = *self;
                self.plot(x, y, color);
                proof {
                    assert(line_point(gx1, gy1, gx2, gy2, i) == (x as int, y as int));
                    Self::lemma_solid_then(
                        *old(self),
                        before,
                        *self,
                        line_prefix(gx1, gy1, gx2, gy2, i - 1),
                        set![(x as int, y as int)],
                        color,
                    );
                    lemma_line_prefix_next(gx1, gy1, gx2, gy2, i - 1);
                }
            }
        }
    }

    /// Paints one more point on top of what `start` has become.
    fn plot_more(&mut self, x: i128, y: i128, color: u8, Ghost(start): Ghost<Renderer>, Ghost(acc): Ghost<Set<(int, int)>>)
        requires
            Self::painted(start, *old(self), solid(acc, color)),
            -coord_bound() <= x <= coord_bound(),
            -coord_bound() <= y <= coord_bound(),
        ensures
            Self::painted(start, *final(self), solid(acc.insert((x as int, y as int)), color)),
    {
        let ghost before = *self;
        self.plot(x, y, color);
        proof {
            Self::lemma_solid_then(start, before, *self, acc, set![(x as int, y as int)], color);
            assert(acc.union(set![(x as int, y as int)]) =~= acc.insert((x as int, y as int)));
        }
    }

    /// Paints one more line on top of what `start` has become.
    fn line_more(
        &mut self,
        x1: i128,
        y1: i128,
        x2: i128,
        y2: i128,
        color: u8,
        Ghost(start): Ghost<Renderer>,
        Ghost(acc): Ghost<Set<(int, int)>>,
    )
        requires
            Self::painted(start, *old(self), solid(acc, color)),
            -span_bound() <= x1 <= span_bound(),
            -span_bound() <= y1 <= span_bound(),
            -span_bound() <= x2 <= span_bound(),
            -span_bound() <= y2 <= span_bound(),
        ensures
            Self::painted(
                start,
                *final(self),
                solid(acc.union(line_points(x1 as int, y1 as int, x2 as int, y2 as int)), color),
            ),
    {
        let ghost before = *self;
        self.line_wide(x1, y1, x2, y2, color);
        proof {
            Self::lemma_solid_then(start, before, *self, acc, line_points(x1 as int, y1 as int, x2 as int, y2 as int), color);
        }
    }

    /// The points that state `(x, y)` of the midpoint iteration adds to an outline.
    fn circle_points(&mut self, cx: i128, cy: i128, x: i128, y: i128, color: u8)
        requires
            old(self).wf(),
            -0x1_0000_0000_0000_0000 <= cx <= 0x1_0000_0000_0000_0000,
            -0x1_0000_0000_0000_0000 <= cy <= 0x1_0000_0000_0000_0000,
            0 <= x <= 0x1_0000_0000_0000,
            0 <= y <= 0x1_0000_0000_0000,
        ensures
            Self::painted(*old(self), *final(self), solid(octet(cx as int, cy as int, x as int, y as int), color)),
    {
        let ghost start = *self;
        let ghost mut acc = Set::<(int, int)>::empty();
        proof {
            Self::lemma_painted_nothing(start, color);
        }
        if x == 0 {
            self.plot_more(cx, cy + y, color, Ghost(start), Ghost(acc));
            proof { acc = acc.insert((cx as int, cy + y)); }
            self.plot_more(cx, cy - y, color, Ghost(start), Ghost(acc));
            proof { acc = acc.insert((cx as int, cy - y)); }
            self.plot_more(cx + y, cy, color, Ghost(start), Ghost(acc));
            proof { acc = acc.insert((cx + y, cy as int)); }
            self.plot_more(cx - y, cy, color, Ghost(start), Ghost(acc));
            proof { acc = acc.insert((cx - y, cy as int)); }
        } else if x == y {
            self.plot_more(cx + x, cy + y, color, Ghost(start), Ghost(acc));
            proof { acc = acc.insert((cx + x, cy + y)); }
            self.plot_more(cx - x, cy + y, color, Ghost(start), Ghost(acc));
            proof { acc = acc.insert((cx - x, cy + y)); }
            self.plot_more(cx + x, cy - y, color, Ghost(start), Ghost(acc));
            proof { acc = acc.insert((cx + x, cy - y)); }
            self.plot_more(cx - x, cy - y, color, Ghost(start), Ghost(acc));
            proof { acc = acc.insert((cx - x, cy - y)); }
        } else if x < y {
            self.plot_more(cx + x, cy + y, color, Ghost(start), Ghost(acc));
            proof { acc = acc.insert((cx + x, cy + y)); }
            self.plot_more(cx - x, cy + y, color, Ghost(start), Ghost(acc));
            proof { acc = acc.insert((cx - x, cy + y)); }
            self.plot_more(cx + x, cy - y, color, Ghost(start), Ghost(acc));
            proof { acc = acc.insert((cx + x, cy - y)); }
            self.plot_more(cx - x, cy - y, color, Ghost(start), Ghost(acc));
            proof { acc = acc.insert((cx - x, cy - y)); }
            self.plot_more(cx + y, cy + x, color, Ghost(start), Ghost(acc));
            proof { acc = acc.insert((cx + y, cy + x)); }
            self.plot_more(cx - y, cy + x, color, Ghost(start), Ghost(acc));
            proof { acc = acc.insert((cx - y, cy + x)); }
            self.plot_more(cx + y, cy - x, color, Ghost(start), Ghost(acc));
            proof { acc = acc.insert((cx + y, cy - x)); }
            self.plot_more(cx - y, cy - x, color, Ghost(start), Ghost(acc));
            proof { acc = acc.insert((cx - y, cy - x)); }
        }
        proof {
            assert(acc =~= octet(cx as int, cy as int, x as int, y as int));
        }
    }

    /// The chords that state `(x, y)` of the midpoint iteration adds to a disc.
    fn circle_points_fill(&mut self, cx: i128, cy: i128, x: i128, y: i128, color: u8)
        requires
            old(self).wf(),
            -0x1_0000_0000_0000_0000 <= cx <= 0x1_0000_0000_0000_0000,
            -0x1_0000_0000_0000_0000 <= cy <= 0x1_0000_0000_0000_0000,
            0 <= x <= 0x1_0000_0000_0000,
            0 <= y <= 0x1_0000_0000_0000,
        ensures
            Self::painted(*old(self), *final(self), solid(fill_octet(cx as int, cy as int, x as int, y as int), color)),
    {
        let ghost start = *self;
        let ghost (gx, gy, gcx, gcy) = (x as int, y as int, cx as int, cy as int);
        let ghost mut acc = Set::<(int, int)>::empty();
        proof {
            Self::lemma_painted_nothing(start, color);
        }
        if x == 0 {
            self.line_more(cx, cy + y, cx, cy - y, color, Ghost(start), Ghost(acc));
            proof {
                lemma_line_vertical(gcx, gcy + gy, gcy - gy);
                acc = acc.union(col_span(gcx, gcy + gy, gcy - gy));
            }
            self.line_more(cx + y, cy, cx - y, cy, color, Ghost(start), Ghost(acc));
            proof {
                lemma_line_horizontal(gcx + gy, gcx - gy, gcy);
                acc = acc.union(row_span(gcx + gy, gcx - gy, gcy));
            }
        } else if x == y {
            self.line_more(cx + x, cy + y, cx - x, cy + y, color, Ghost(start), Ghost(acc));
            proof {
                lemma_line_horizontal(gcx + gx, gcx - gx, gcy + gy);
                acc = acc.union(row_span(gcx + gx, gcx - gx, gcy + gy));
            }
            self.line_more(cx + x, cy - y, cx - x, cy - y, color, Ghost(start), Ghost(acc));
            proof {
                lemma_line_horizontal(gcx + gx, gcx - gx, gcy - gy);
                acc = acc.union(row_span(gcx + gx, gcx - gx, gcy - gy));
            }
        } else if x < y {
            self.line_more(cx + x, cy + y, cx - x, cy + y, color, Ghost(start), Ghost(acc));
            proof {
                lemma_line_horizontal(gcx + gx, gcx - gx, gcy + gy);
                acc = acc.union(row_span(gcx + gx, gcx - gx, gcy + gy));
            }
            self.line_more(cx + x, cy - y, cx - x, cy - y, color, Ghost(start), Ghost(acc));
            proof {
                lemma_line_horizontal(gcx + gx, gcx - gx, gcy - gy);
                acc = acc.union(row_span(gcx + gx, gcx - gx, gcy - gy));
            }
            self.line_more(cx + y, cy + x, cx - y, cy + x, color, Ghost(start), Ghost(acc));
            proof {
                lemma_line_horizontal(gcx + gy, gcx - gy, gcy + gx);
                acc = acc.union(row_span(gcx + gy, gcx - gy, gcy + gx));
            }
            self.line_more(cx + y, cy - x, cx - y, cy - x, color, Ghost(start), Ghost(acc));
            proof {
                lemma_line_horizontal(gcx + gy, gcx - gy, gcy - gx);
                acc = acc.union(row_span(gcx + gy, gcx - gy, gcy - gx));
            }
        }
        proof {
            assert(acc =~= fill_octet(gcx, gcy, gx, gy));
        }
    }

    /// The midpoint circle iteration, painting outline points or chords at each state.
    fn midpoint_circle(&mut self, origin_x: i64, origin_y: i64, radius: u32, color: u8, filled: bool)
        requires
            old(self).wf(),
        ensures
            Self::painted(
                *old(self),
                *final(self),
                solid(circle_pixels(filled, origin_x as int, origin_y as int, radius as int), color),
            ),
    {
        let cx: i128 = origin_x as i128;
        let cy: i128 = origin_y as i128;
        let r: i128 = radius as i128;
        let ghost gr = radius as int;
        let mut x: i128 = 0;
        let mut y: i128 = r;
        let mut p: i128 = if radius == 0 {
            1
        } else if radius == 1 {
            0
        } else {
            2 - r
        };
        proof {
            if radius >= 2 {
                vstd::arithmetic::div_mod::lemma_fundamental_div_mod_converse(4 * gr - 5, 4, gr - 2, 3);
            }
            assert(p == circle_p0(gr));
        }
        if filled {
            self.circle_points_fill(cx, cy, x, y, color);
        } else {
            self.circle_points(cx, cy, x, y, color);
        }
        let ghost mut n: nat = 0;
        proof {
            lemma_circle_prefix_first(filled, cx as int, cy as int, gr);
        }
        while x < y
            invariant
                Self::painted(*old(self), *self, solid(circle_prefix(filled, cx as int, cy as int, gr, n), color)),
                gr == r,
                0 <= r <= u32::MAX,
                cx == origin_x,
                cy == origin_y,
                circle_state(gr, n) == (x as int, y as int, p as int),
                circle_reached(gr, n),
                x == n,
                0 <= x <= r + 1,
                0 <= y <= r,
                n <= r + 1,
                -(r + 1) - n * (2 * r + 3) <= p <= (r + 1) + n * (2 * r + 3),
            decreases y + 1 - x,
        {
            proof {
                assert(n * (2 * r + 3) + (2 * r + 3) == (n + 1) * (2 * r + 3)) by (nonlinear_arith);
                assert(0 <= n * (2 * r + 3) <= 0x1_0000_0001 * 0x2_0000_0001) by (nonlinear_arith)
                    requires
                        0 <= n <= r + 1,
                        0 <= r <= u32::MAX,
                ;
            }
            x = x + 1;
            if p < 0 {
                p = p + 2 * x + 1;
            } else {
                y = y - 1;
                p = p + 2 * (x - y) + 1;
            }
            proof {
                n = n + 1;
            }
            let ghost before = *self;
            if filled {
                self.circle_points_fill(cx, cy, x, y, color);
            } else {
                self.circle_points(cx, cy, x, y, color);
            }
            proof {
                Self::lemma_solid_then(
                    *old(self),
                    before,
                    *self,
                    circle_prefix(filled, cx as int, cy as int, gr, (n - 1) as nat),
                    circle_part(filled, cx as int, cy as int, x as int, y as int),
                    color,
                );
                lemma_circle_prefix_next(filled, cx as int, cy as int, gr, (n - 1) as nat);
            }
        }
        proof {
            lemma_circle_prefix_done(filled, cx as int, cy as int, gr, n);
        }
    }

    /// Outline of the midpoint circle of `radius` around `(origin_x, origin_y)`.
    pub fn circle_raw(&mut self, origin_x: i64, origin_y: i64, radius: u32, color: u8)
        requires
            old(self).wf(),
        ensures
            Self::painted(
                *old(self),
                *final(self),
                solid(circle_pixels(false, origin_x as int, origin_y as int, radius as int), color),
            ),
    {
        self.midpoint_circle(origin_x, origin_y, radius, color, false);
    }

    /// Disc of the midpoint circle of `radius` around `(origin_x, origin_y)`, drawn as chords.
    pub fn circle_filled_raw(&mut self, origin_x: i64, origin_y: i64, radius: u32, color: u8)
        requires
            old(self).wf(),
        ensures
            Self::painted(
                *old(self),
                *final(self),
                solid(circle_pixels(true, origin_x as int, origin_y as int, radius as int), color),
            ),
    {
        self.midpoint_circle(origin_x, origin_y, radius, color, true);
    }

    /// Outline of the rectangle with corners `(x1, y1)` and `(x2, y2)`; the ranges are not
    /// reordered.
    pub fn rectangle_raw(&mut self, x1: i64, y1: i64, x2: i64, y2: i64, color: u8)
        requires
            old(self).wf(),
        ensures
            Self::painted(
                *old(self),
                *final(self),
                solid(rect_outline(x1 as int, y1 as int, x2 as int, y2 as int), color),
            ),
    {
        let ghost start = *self;
        proof {
            Self::lemma_painted_nothing(start, color);
        }
        let mut x: i128 = x1 as i128;
        let ghost rows = |upto: int|
            Set::new(
                |p: (int, int)| x1 <= p.0 < upto && (p.1 == y1 || p.1 == y2),
            );
        proof {
            assert(rows(x1 as int) =~= Set::<(int, int)>::empty());
        }
        while x <= x2 as i128
            invariant
                Self::painted(start, *self, solid(rows(x as int), color)),
                x1 <= x <= x2 as int + 1 || x == x1,
                rows == (|upto: int|
                    Set::new(
                        |p: (int, int)| x1 <= p.0 < upto && (p.1 == y1 || p.1 == y2),
                    )),
            decreases x2 - x + 1,
        {
            self.plot_more(x, y1 as i128, color, Ghost(start), Ghost(rows(x as int)));
            self.plot_more(x, y2 as i128, color, Ghost(start), Ghost(rows(x as int).insert((x as int, y1 as int))));
            proof {
                assert(rows(x as int).insert((x as int, y1 as int)).insert((x as int, y2 as int)) =~= rows(x + 1));
            }
            x = x + 1;
        }
        let ghost done_rows = rows(x as int);
        proof {
            assert(x1 <= x2 ==> x == x2 + 1);
        }
        let mut y: i128 = y1 as i128;
        let ghost cols = |upto: int|
            done_rows.union(
                Set::new(|p: (int, int)| y1 <= p.1 < upto && (p.0 == x1 || p.0 == x2)),
            );
        proof {
            assert(cols(y1 as int) =~= done_rows);
        }
        while y <= y2 as i128
            invariant
                Self::painted(start, *self, solid(cols(y as int), color)),
                y1 <= y <= y2 as int + 1 || y == y1,
                cols == (|upto: int|
                    done_rows.union(
                        Set::new(|p: (int, int)| y1 <= p.1 < upto && (p.0 == x1 || p.0 == x2)),
                    )),
            decreases y2 - y + 1,
        {
            self.plot_more(x1 as i128, y, color, Ghost(start), Ghost(cols(y as int)));
            self.plot_more(x2 as i128, y, color, Ghost(start), Ghost(cols(y as int).insert((x1 as int, y as int))));
            proof {
                assert(cols(y as int).insert((x1 as int, y as int)).insert((x2 as int, y as int)) =~= cols(y + 1));
            }
            y = y + 1;
        }
        proof {
            assert(y1 <= y2 ==> y == y2 + 1);
            assert(cols(y as int) =~= rect_outline(x1 as int, y1 as int, x2 as int, y2 as int));
        }
    }

    /// Every point of `x1..=x2` × `y1..=y2`; nothing when a range is reversed.
    pub fn rectangle_filled_raw(&mut self, x1: i64, y1: i64, x2: i64, y2: i64, color: u8)
        requires
            old(self).wf(),
        ensures
            Self::painted(
                *old(self),
                *final(self),
                solid(rect_area(x1 as int, y1 as int, x2 as int, y2 as int), color),
            ),
    {
        let ghost start = *self;
        proof {
            Self::lemma_painted_nothing(start, color);
            assert(rect_area(x1 as int, y1 as int, x1 - 1, y2 as int) =~= Set::<(int, int)>::empty());
        }
        let mut x: i128 = x1 as i128;
        while x <= x2 as i128
            invariant
                Self::painted(start, *self, solid(rect_area(x1 as int, y1 as int, x - 1, y2 as int), color)),
                x1 <= x <= x2 as int + 1 || x == x1,
            decreases x2 - x + 1,
        {
            let mut y: i128 = y1 as i128;
            proof {
                assert(rect_area(x1 as int, y1 as int, x - 1, y2 as int).union(rect_area(x as int, y1 as int, x as int, y1 - 1)) =~= rect_area(x1 as int, y1 as int, x - 1, y2 as int));
            }
            while y <= y2 as i128
                invariant
                    Self::painted(
                        start,
                        *self,
                        solid(rect_area(x1 as int, y1 as int, x - 1, y2 as int).union(rect_area(x as int, y1 as int, x as int, y - 1)), color),
                    ),
                    x1 <= x <= x2,
                    y1 <= y <= y2 as int + 1 || y == y1,
                decreases y2 - y + 1,
            {
                self.plot_more(
                    x,
                    y,
                    color,
                    Ghost(start),
                    Ghost(rect_area(x1 as int, y1 as int, x - 1, y2 as int).union(rect_area(x as int, y1 as int, x as int, y - 1))),
                );
                proof {
                    assert(rect_area(x1 as int, y1 as int, x - 1, y2 as int).union(rect_area(x as int, y1 as int, x as int, y - 1)).insert((x as int, y as int))
                        =~= rect_area(x1 as int, y1 as int, x - 1, y2 as int).union(rect_area(x as int, y1 as int, x as int, y as int)));
                }
                y = y + 1;
            }
            proof {
                if y1 <= y2 {
                    assert(y == y2 + 1);
                }
                assert(rect_area(x1 as int, y1 as int, x - 1, y2 as int).union(rect_area(x as int, y1 as int, x as int, y - 1))
                    =~= rect_area(x1 as int, y1 as int, x as int, y2 as int));
            }
            x = x + 1;
        }
        proof {
            if x1 <= x2 {
                assert(x == x2 + 1);
            }
            assert(rect_area(x1 as int, y1 as int, x - 1, y2 as int) =~= rect_area(x1 as int, y1 as int, x2 as int, y2 as int));
        }
    }

    /// Paints one more point with its own index on top of what `start` has become.
    fn paint_more(&mut self, x: i128, y: i128, v: u8, Ghost(start): Ghost<Renderer>, Ghost(acc): Ghost<Map<(int, int), u8>>)
        requires
            Self::painted(start, *old(self), acc),
            -coord_bound() <= x <= coord_bound(),
            -coord_bound() <= y <= coord_bound(),
        ensures
            Self::painted(start, *final(self), acc.insert((x as int, y as int), v)),
    {
        let ghost before = *self;
        self.plot(x, y, v);
        proof {
            Self::lemma_painted_then(start, before, *self, acc, solid(set![(x as int, y as int)], v));
            assert(acc.union_prefer_right(solid(set![(x as int, y as int)], v)) =~= acc.insert((x as int, y as int), v));
        }
    }

    fn blit(&mut self, sprite: &Sprite, x: i64, y: i64, flip: bool, band: Option<Brightness>, lights: Option<&Vec<PointLight>>)
        requires
            old(self).wf(),
        ensures
            Self::painted(
                *old(self),
                *final(self),
                sprite_image(*sprite, x as int, y as int, flip, old(self).ambient(), band, lights_view(lights)),
            ),
    {
        let w = sprite.get_width();
        let h = sprite.get_height();
        let ghost start = *self;
        let ghost (gx, gy, amb, lv) = (x as int, y as int, self.ambient(), lights_view(lights));
        proof {
            Self::lemma_painted_nothing(start, 0);
            assert(blit_shade(*sprite, gx, gy, flip, amb, band, lv, 0, 0) =~= Map::<(int, int), u8>::empty());
        }
        let mut sx: u32 = 0;
        while sx < w
            invariant
                Self::painted(start, *self, blit_shade(*sprite, gx, gy, flip, amb, band, lv, sx as int, 0)),
                w == sprite.spec_width(),
                h == sprite.spec_height(),
                sx <= w,
                gx == x,
                gy == y,
                amb == start.ambient(),
                lv == lights_view(lights),
            decreases w - sx,
        {
            let mut sy: u32 = 0;
            while sy < h
                invariant
                    Self::painted(start, *self, blit_shade(*sprite, gx, gy, flip, amb, band, lv, sx as int, sy as int)),
                    w == sprite.spec_width(),
                    h == sprite.spec_height(),
                    sx < w,
                    sy <= h,
                    gx == x,
                    gy == y,
                    amb == start.ambient(),
                    lv == lights_view(lights),
                decreases h - sy,
            {
                let color = sprite.get_color_index_at(sx, sy);
                let ghost before_map = blit_shade(*sprite, gx, gy, flip, amb, band, lv, sx as int, sy as int);
                if color != FlaskColor::Transparent {
                    let tx: i128 = if flip {
                        x as i128 + (w - 1 - sx) as i128
                    } else {
                        x as i128 + sx as i128
                    };
                    let ty: i128 = y as i128 + sy as i128;
                    let idx: u8 = match lights {
                        Some(ls) => resolve_index(color, lighting_at(self.brightness, ls, tx, ty), FlaskColor::count()),
                        None => match band {
                            Some(b) => resolve_index(color, b, FlaskColor::count()),
                            None => color.index(),
                        },
                    };
                    proof {
                        assert(sprite_source(w as int, gx, gy, flip, (tx as int, ty as int)) == (sx as int, sy as int));
                        assert(idx == tint_index(amb, band, lv, color, (tx as int, ty as int)));
                    }
                    self.paint_more(tx, ty, idx, Ghost(start), Ghost(before_map));
                    proof {
                        assert(before_map.insert((tx as int, ty as int), idx) =~= blit_shade(
                            *sprite,
                            gx,
                            gy,
                            flip,
                            amb,
                            band,
                            lv,
                            sx as int,
                            sy + 1,
                        ));
                    }
                } else {
                    proof {
                        assert(before_map =~= blit_shade(*sprite, gx, gy, flip, amb, band, lv, sx as int, sy + 1));
                    }
                }
                sy = sy + 1;
            }
            proof {
                assert(blit_shade(*sprite, gx, gy, flip, amb, band, lv, sx as int, h as int) =~= blit_shade(
                    *sprite,
                    gx,
                    gy,
                    flip,
                    amb,
                    band,
                    lv,
                    sx + 1,
                    0,
                ));
            }
            sx = sx + 1;
        }
    }

    /// Blits every opaque pixel of `sprite` with its `Normal` index, its lower-left corner at
    /// `(x, y)`; `flip` mirrors it horizontally.
    pub fn sprite(&mut self, sprite: &Sprite, x: i64, y: i64, flip: bool)
        requires
            old(self).wf(),
        ensures
            Self::painted(*old(self), *final(self), sprite_image(*sprite, x as int, y as int, flip, old(self).ambient(), None, None)),
    {
        self.blit(sprite, x, y, flip, None, None);
    }

    /// Blits `sprite` with every color taken in the band of `brightness`.
    pub fn sprite_lit(&mut self, sprite: &Sprite, x: i64, y: i64, flip: bool, brightness: Brightness)
        requires
            old(self).wf(),
        ensures
            Self::painted(
                *old(self),
                *final(self),
                sprite_image(*sprite, x as int, y as int, flip, old(self).ambient(), Some(brightness), None),
            ),
    {
        self.blit(sprite, x, y, flip, Some(brightness), None);
    }

    /// Blits `sprite` with each pixel in the band the lights give at its position.
    pub fn sprite_dyn_lit(&mut self, sprite: &Sprite, x: i64, y: i64, flip: bool, lights: &Vec<PointLight>)
        requires
            old(self).wf(),
        ensures
            Self::painted(
                *old(self),
                *final(self),
                sprite_image(*sprite, x as int, y as int, flip, old(self).ambient(), None, Some(lights@)),
            ),
    {
        self.blit(sprite, x, y, flip, None, Some(lights));
    }

    /// Paints `(x, y)` with `color` in the band the lights give there: the lightest of the
    /// ambient band and each light's band.
    pub fn point_dyn_lit(&mut self, x: i64, y: i64, color: FlaskColor, lights: &Vec<PointLight>)
        requires
            old(self).wf(),
        ensures
            Self::painted(
                *old(self),
                *final(self),
                solid(set![(x as int, y as int)], lit_index(color, lit_by(old(self).ambient(), lights@, x as int, y as int))),
            ),
    {
        let brightness = lighting_at(self.brightness, lights, x as i128, y as i128);
        self.point_lit(x, y, color, brightness);
    }

    /// Paints the opaque pixels of a glyph on top of what `start` has become.
    fn glyph_more(&mut self, glyph: &Sprite, px: i128, py: i128, color: u8, Ghost(start): Ghost<Renderer>, Ghost(acc): Ghost<Set<(int, int)>>)
        requires
            Self::painted(start, *old(self), solid(acc, color)),
            -0x4_0000_0000_0000_0000_0000_0000 <= px <= 0x4_0000_0000_0000_0000_0000_0000,
            -0x4_0000_0000_0000_0000_0000_0000 <= py <= 0x4_0000_0000_0000_0000_0000_0000,
        ensures
            Self::painted(start, *final(self), solid(acc.union(glyph_points(*glyph, (px as int, py as int))), color)),
    {
        let w = glyph.get_width();
        let h = glyph.get_height();
        let ghost pen = (px as int, py as int);
        let ghost part = |i: int, j: int|
            acc.union(
                Set::new(
                    |p: (int, int)|
                        glyph_points(*glyph, pen).contains(p) && (p.0 - pen.0 < i || (p.0 - pen.0 == i && p.1 - pen.1 < j)),
                ),
            );
        proof {
            assert(part(0, 0) =~= acc);
        }
        let mut gx: u32 = 0;
        while gx < w
            invariant
                Self::painted(start, *self, solid(part(gx as int, 0), color)),
                w == glyph.spec_width(),
                h == glyph.spec_height(),
                gx <= w,
                pen == (px as int, py as int),
                -0x4_0000_0000_0000_0000_0000_0000 <= px <= 0x4_0000_0000_0000_0000_0000_0000,
                -0x4_0000_0000_0000_0000_0000_0000 <= py <= 0x4_0000_0000_0000_0000_0000_0000,
                part == (|i: int, j: int|
                    acc.union(
                        Set::new(
                            |p: (int, int)|
                                glyph_points(*glyph, pen).contains(p) && (p.0 - pen.0 < i || (p.0 - pen.0 == i && p.1 - pen.1 < j)),
                        ),
                    )),
            decreases w - gx,
        {
            let mut gy: u32 = 0;
            while gy < h
                invariant
                    Self::painted(start, *self, solid(part(gx as int, gy as int), color)),
                    w == glyph.spec_width(),
                    h == glyph.spec_height(),
                    gx < w,
                    gy <= h,
                    pen == (px as int, py as int),
                    -0x4_0000_0000_0000_0000_0000_0000 <= px <= 0x4_0000_0000_0000_0000_0000_0000,
                    -0x4_0000_0000_0000_0000_0000_0000 <= py <= 0x4_0000_0000_0000_0000_0000_0000,
                    part == (|i: int, j: int|
                        acc.union(
                            Set::new(
                                |p: (int, int)|
                                    glyph_points(*glyph, pen).contains(p) && (p.0 - pen.0 < i || (p.0 - pen.0 == i && p.1 - pen.1 < j)),
                            ),
                        )),
                decreases h - gy,
            {
                if glyph.get_color_index_at(gx, gy) != FlaskColor::Transparent {
                    self.plot_more(px + gx as i128, py + gy as i128, color, Ghost(start), Ghost(part(gx as int, gy as int)));
                    proof {
                        assert(part(gx as int, gy as int).insert((px + gx, py + gy)) =~= part(gx as int, gy + 1));
                    }
                } else {
                    proof {
                        assert(part(gx as int, gy as int) =~= part(gx as int, gy + 1));
                    }
                }
                gy = gy + 1;
            }
            proof {
                assert(part(gx as int, h as int) =~= part(gx + 1, 0));
            }
            gx = gx + 1;
        }
        proof {
            assert(part(w as int, 0) =~= acc.union(glyph_points(*glyph, pen)));
        }
    }

    /// Writes `text` from `(x, y)` with palette index `color`. Space advances the pen by the
    /// fallback glyph's width plus one without drawing; newline returns to `x` and moves one
    /// glyph height plus one down; every other byte draws its glyph, or the fallback glyph when
    /// the font has none, and advances by the glyph's width plus one.
    pub fn text_raw(&mut self, text: &String, font: &Font, x: i64, y: i64, color: u8)
        requires
            old(self).wf(),
        ensures
            Self::painted(
                *old(self),
                *final(self),
                solid(text_points(*font, vstd::utf8::encode_utf8(text@), x as int, y as int), color),
            ),
    {
        let bytes = text.as_str().as_bytes();
        let ghost s = bytes@;
        let mut x_offset: i128 = x as i128;
        let mut y_offset: i128 = y as i128;
        let space_width: i128 = font.get_glyph_width() as i128;
        let space_height: i128 = font.get_glyph_height() as i128;
        let ghost start = *self;
        proof {
            Self::lemma_painted_nothing(start, color);
            assert(text_prefix(*font, s, x as int, y as int, 0) =~= Set::<(int, int)>::empty());
        }
        let n = bytes.len();
        let mut i: usize = 0;
        while i < n
            invariant
                Self::painted(start, *self, solid(text_prefix(*font, s, x as int, y as int, i as nat), color)),
                s == bytes@,
                n == s.len(),
                i <= n,
                space_width == font.null_glyph().spec_width(),
                space_height == font.null_glyph().spec_height(),
                text_pen(*font, s, x as int, y as int, i as nat) == (x_offset as int, y_offset as int),
                x - i * 0x1_0000_0001 <= x_offset <= x + i * 0x1_0000_0001,
                y - i * 0x1_0000_0001 <= y_offset <= y,
            decreases n - i,
        {
            let ch = bytes[i];
            proof {
                lemma_text_prefix_next(*font, s, x as int, y as int, i as nat);
            }
            if ch == 32 {
                x_offset = x_offset + space_width + 1;
            } else if ch == 10 {
                x_offset = x as i128;
                y_offset = y_offset - space_height - 1;
            } else {
                let glyph = font.get_glyph(&ch);
                self.glyph_more(glyph, x_offset, y_offset, color, Ghost(start), Ghost(text_prefix(*font, s, x as int, y as int, i as nat)));
                x_offset = x_offset + glyph.get_width() as i128 + 1;
            }
            i = i + 1;
        }
    }

    /// A renderer over `frame_buffer` with the given full palette (all brightness bands). The
    /// palette must hold 1 to 255 colors, a multiple of 4. The camera starts at the origin, the
    /// background at index 1 and the ambient band at `Normal`.
    pub fn new(frame_buffer: FrameBuffer, palette: Vec<Color>) -> (r: Result<Renderer, FlaskError>)
        requires
            frame_buffer.wf(),
        ensures
            r is Err <==> !valid_palette_size(palette@.len() as int),
            r matches Err(e) ==> e == FlaskError::InvalidPaletteSize,
            r matches Ok(rd) ==> {
                &&& rd.wf()
                &&& rd.frame() == frame_buffer
                &&& rd.palette() == rgb_bytes(palette@)
                &&& rd.palette_len() == palette@.len()
                &&& rd.camera_x() == 0
                &&& rd.camera_y() == 0
                &&& rd.origin_x() == frame_buffer.width() / 2
                &&& rd.origin_y() == frame_buffer.height() / 2
                &&& rd.background() == 1
                &&& rd.ambient() == Brightness::Normal
            },
    {
        let palette_texture = match palette_texture_from_color_vec(&palette) {
            Ok(t) => t,
            Err(e) => {
                return Err(e);
            },
        };
        let palette_size = palette.len() as u32;
        proof {
            frame_buffer.lemma_size();
        }
        let camera_origin_x = (frame_buffer.get_width() / 2) as i64;
        let camera_origin_y = (frame_buffer.get_height() / 2) as i64;
        Ok(Renderer {
            frame_buffer,
            palette_texture,
            palette_size,
            camera_x: 0,
            camera_y: 0,
            camera_origin_x,
            camera_origin_y,
            background_color_index: 1,
            brightness: Brightness::Normal,
        })
    }

    /// Resets every pixel of the frame to 0.
    pub fn clear_screen(&mut self)
        requires
            old(self).wf(),
        ensures
            final(self).wf(),
            final(self).same_setup(old(self)),
            forall|bx: int, by: int|
                old(self).frame().in_bounds(bx, by) ==> #[trigger] final(self).frame().pixel(bx, by) == 0,
    {
        self.frame_buffer.clear_screen();
    }

    pub fn get_frame_buffer(&self) -> (fb: &FrameBuffer)
        ensures
            *fb == self.frame(),
            self.wf() ==> fb.wf(),
    {
        &self.frame_buffer
    }

    /// The palette's RGB bytes, for upload as a `palette_size` × 1 texture.
    pub fn get_palette_texture(&self) -> (t: &Vec<u8>)
        ensures
            t@ == self.palette(),
    {
        &self.palette_texture
    }

    /// The number of colors in the palette.
    pub fn get_palette_size(&self) -> (n: u32)
        ensures
            n == self.palette_len(),
    {
        self.palette_size
    }

    pub fn get_window_size(&self) -> (r: (i64, i64))
        ensures
            r.0 == self.frame().width(),
            r.1 == self.frame().height(),
    {
        proof {
            self.frame_buffer.lemma_size();
        }
        (self.frame_buffer.get_width() as i64, self.frame_buffer.get_height() as i64)
    }

    pub fn get_camera_position(&self) -> (r: (i64, i64))
        ensures
            r.0 == self.camera_x(),
            r.1 == self.camera_y(),
    {
        (self.camera_x, self.camera_y)
    }

    pub fn get_camera_x(&self) -> (r: i64)
        ensures
            r == self.camera_x(),
    {
        self.camera_x
    }

    pub fn get_camera_y(&self) -> (r: i64)
        ensures
            r == self.camera_y(),
    {
        self.camera_y
    }

    pub fn set_camera_position(&mut self, x: i64, y: i64)
        requires
            old(self).wf(),
        ensures
            final(self).wf(),
            final(self).camera_x() == x,
            final(self).camera_y() == y,
            final(self).frame() == old(self).frame(),
            final(self).palette() == old(self).palette(),
            final(self).palette_len() == old(self).palette_len(),
            final(self).origin_x() == old(self).origin_x(),
            final(self).origin_y() == old(self).origin_y(),
            final(self).background() == old(self).background(),
            final(self).ambient() == old(self).ambient(),
    {
        self.camera_x = x;
        self.camera_y = y;
    }

    pub fn set_camera_x(&mut self, x: i64)
        requires
            old(self).wf(),
        ensures
            final(self).wf(),
            final(self).camera_x() == x,
            final(self).camera_y() == old(self).camera_y(),
            final(self).frame() == old(self).frame(),
            final(self).palette() == old(self).palette(),
            final(self).palette_len() == old(self).palette_len(),
            final(self).origin_x() == old(self).origin_x(),
            final(self).origin_y() == old(self).origin_y(),
            final(self).background() == old(self).background(),
            final(self).ambient() == old(self).ambient(),
    {
        self.camera_x = x;
    }

    pub fn set_camera_y(&mut self, y: i64)
        requires
            old(self).wf(),
        ensures
            final(self).wf(),
            final(self).camera_y() == y,
            final(self).camera_x() == old(self).camera_x(),
            final(self).frame() == old(self).frame(),
            final(self).palette() == old(self).palette(),
            final(self).palette_len() == old(self).palette_len(),
            final(self).origin_x() == old(self).origin_x(),
            final(self).origin_y() == old(self).origin_y(),
            final(self).background() == old(self).background(),
            final(self).ambient() == old(self).ambient(),
    {
        self.camera_y = y;
    }

    /// The background becomes the `Normal` index of `background_color`.
    pub fn set_background_color(&mut self, background_color: FlaskColor)
        requires
            old(self).wf(),
        ensures
            final(self).wf(),
            final(self).background() == background_color.spec_index(),
            final(self).frame() == old(self).frame(),
            final(self).palette() == old(self).palette(),
            final(self).palette_len() == old(self).palette_len(),
            final(self).camera_x() == old(self).camera_x(),
            final(self).camera_y() == old(self).camera_y(),
            final(self).origin_x() == old(self).origin_x(),
            final(self).origin_y() == old(self).origin_y(),
            final(self).ambient() == old(self).ambient(),
    {
        self.background_color_index = background_color.index();
    }

    /// The background becomes the index of `background_color` in the band of `brightness`.
    pub fn set_background_color_lit(&mut self, background_color: FlaskColor, brightness: Brightness)
        requires
            old(self).wf(),
        ensures
            final(self).wf(),
            final(self).background() == lit_index(background_color, brightness),
            final(self).frame() == old(self).frame(),
            final(self).palette() == old(self).palette(),
            final(self).palette_len() == old(self).palette_len(),
            final(self).camera_x() == old(self).camera_x(),
            final(self).camera_y() == old(self).camera_y(),
            final(self).origin_x() == old(self).origin_x(),
            final(self).origin_y() == old(self).origin_y(),
            final(self).ambient() == old(self).ambient(),
    {
        self.background_color_index = resolve_index(background_color, brightness, FlaskColor::count());
    }

    /// Sets the background to a raw palette index: 0 is reserved and an index past the palette
    /// is refused; on error nothing changes.
    pub fn set_background_color_raw(&mut self, background_color_index: u8) -> (r: Result<(), FlaskError>)
        requires
            old(self).wf(),
        ensures
            final(self).wf(),
            r is Ok <==> 0 < background_color_index <= old(self).palette_len(),
            r is Ok ==> final(self).background() == background_color_index,
            r is Err ==> final(self).background() == old(self).background(),
            r matches Err(e) ==> (background_color_index == 0 && e == FlaskError::BackgroundColorZero) || (
            background_color_index > 0 && background_color_index > old(self).palette_len() && e
                == FlaskError::BackgroundColorOutOfBounds(background_color_index)),
            final(self).frame() == old(self).frame(),
            final(self).palette() == old(self).palette(),
            final(self).palette_len() == old(self).palette_len(),
            final(self).camera_x() == old(self).camera_x(),
            final(self).camera_y() == old(self).camera_y(),
            final(self).origin_x() == old(self).origin_x(),
            final(self).origin_y() == old(self).origin_y(),
            final(self).ambient() == old(self).ambient(),
    {
        if background_color_index == 0 {
            return Err(FlaskError::BackgroundColorZero);
        }
        if background_color_index as u32 > self.palette_size {
            return Err(FlaskError::BackgroundColorOutOfBounds(background_color_index));
        }
        self.background_color_index = background_color_index;
        Ok(())
    }

    pub fn get_background_color(&self) -> (r: u8)
        ensures
            r == self.background(),
    {
        self.background_color_index
    }

    /// Sets the ambient band that dynamic lighting starts from.
    pub fn set_brightness(&mut self, brightness: Brightness)
        requires
            old(self).wf(),
        ensures
            final(self).wf(),
            final(self).ambient() == brightness,
            final(self).frame() == old(self).frame(),
            final(self).palette() == old(self).palette(),
            final(self).palette_len() == old(self).palette_len(),
            final(self).camera_x() == old(self).camera_x(),
            final(self).camera_y() == old(self).camera_y(),
            final(self).origin_x() == old(self).origin_x(),
            final(self).origin_y() == old(self).origin_y(),
            final(self).background() == old(self).background(),
    {
        self.brightness = brightness;
    }

    pub fn get_brightness(&self) -> (b: Brightness)
        ensures
            b == self.ambient(),
    {
        self.brightness
    }

    /// Outline circle in the `Normal` index of `color`.
    pub fn circle(&mut self, origin_x: i64, origin_y: i64, radius: u32, color: FlaskColor)
        requires
            old(self).wf(),
        ensures
            Self::painted(*old(self), *final(self), solid(circle_pixels(false, origin_x as int, origin_y as int, radius as int), color.spec_index())),
    {
        self.circle_raw(origin_x, origin_y, radius, color.index());
    }

    /// Outline circle in the index of `color` in the band of `brightness`.
    pub fn circle_lit(&mut self, origin_x: i64, origin_y: i64, radius: u32, color: FlaskColor, brightness: Brightness)
        requires
            old(self).wf(),
        ensures
            Self::painted(*old(self), *final(self), solid(circle_pixels(false, origin_x as int, origin_y as int, radius as int), lit_index(color, brightness))),
    {
        self.circle_raw(origin_x, origin_y, radius, resolve_index(color, brightness, FlaskColor::count()));
    }

    /// Filled circle in the `Normal` index of `color`.
    pub fn circle_filled(&mut self, origin_x: i64, origin_y: i64, radius: u32, color: FlaskColor)
        requires
            old(self).wf(),
        ensures
            Self::painted(*old(self), *final(self), solid(circle_pixels(true, origin_x as int, origin_y as int, radius as int), color.spec_index())),
    {
        self.circle_filled_raw(origin_x, origin_y, radius, color.index());
    }

    /// Filled circle in the index of `color` in the band of `brightness`.
    pub fn circle_filled_lit(&mut self, origin_x: i64, origin_y: i64, radius: u32, color: FlaskColor, brightness: Brightness)
        requires
            old(self).wf(),
        ensures
            Self::painted(*old(self), *final(self), solid(circle_pixels(true, origin_x as int, origin_y as int, radius as int), lit_index(color, brightness))),
    {
        self.circle_filled_raw(origin_x, origin_y, radius, resolve_index(color, brightness, FlaskColor::count()));
    }

    /// Line in the `Normal` index of `color`.
    pub fn line(&mut self, x1: i64, y1: i64, x2: i64, y2: i64, color: FlaskColor)
        requires
            old(self).wf(),
        ensures
            Self::painted(*old(self), *final(self), solid(line_points(x1 as int, y1 as int, x2 as int, y2 as int), color.spec_index())),
    {
        self.line_raw(x1, y1, x2, y2, color.index());
    }

    /// Line in the index of `color` in the band of `brightness`.
    pub fn line_lit(&mut self, x1: i64, y1: i64, x2: i64, y2: i64, color: FlaskColor, brightness: Brightness)
        requires
            old(self).wf(),
        ensures
            Self::painted(*old(self), *final(self), solid(line_points(x1 as int, y1 as int, x2 as int, y2 as int), lit_index(color, brightness))),
    {
        self.line_raw(x1, y1, x2, y2, resolve_index(color, brightness, FlaskColor::count()));
    }

    /// Rectangle outline in the `Normal` index of `color`.
    pub fn rectangle(&mut self, x1: i64, y1: i64, x2: i64, y2: i64, color: FlaskColor)
        requires
            old(self).wf(),
        ensures
            Self::painted(*old(self), *final(self), solid(rect_outline(x1 as int, y1 as int, x2 as int, y2 as int), color.spec_index())),
    {
        self.rectangle_raw(x1, y1, x2, y2, color.index());
    }

    /// Rectangle outline in the index of `color` in the band of `brightness`.
    pub fn rectangle_lit(&mut self, x1: i64, y1: i64, x2: i64, y2: i64, color: FlaskColor, brightness: Brightness)
        requires
            old(self).wf(),
        ensures
            Self::painted(*old(self), *final(self), solid(rect_outline(x1 as int, y1 as int, x2 as int, y2 as int), lit_index(color, brightness))),
    {
        self.rectangle_raw(x1, y1, x2, y2, resolve_index(color, brightness, FlaskColor::count()));
    }

    /// Filled rectangle in the `Normal` index of `color`.
    pub fn rectangle_filled(&mut self, x1: i64, y1: i64, x2: i64, y2: i64, color: FlaskColor)
        requires
            old(self).wf(),
        ensures
            Self::painted(*old(self), *final(self), solid(rect_area(x1 as int, y1 as int, x2 as int, y2 as int), color.spec_index())),
    {
        self.rectangle_filled_raw(x1, y1, x2, y2, color.index());
    }

    /// Filled rectangle in the index of `color` in the band of `brightness`.
    pub fn rectangle_filled_lit(&mut self, x1: i64, y1: i64, x2: i64, y2: i64, color: FlaskColor, brightness: Brightness)
        requires
            old(self).wf(),
        ensures
            Self::painted(*old(self), *final(self), solid(rect_area(x1 as int, y1 as int, x2 as int, y2 as int), lit_index(color, brightness))),
    {
        self.rectangle_filled_raw(x1, y1, x2, y2, resolve_index(color, brightness, FlaskColor::count()));
    }

    /// Text in the `Normal` index of `color`.
    pub fn text(&mut self, text: &String, font: &Font, x: i64, y: i64, color: FlaskColor)
        requires
            old(self).wf(),
        ensures
            Self::painted(*old(self), *final(self), solid(text_points(*font, vstd::utf8::encode_utf8(text@), x as int, y as int), color.spec_index())),
    {
        self.text_raw(text, font, x, y, color.index());
    }

    /// Text in the index of `color` in the band of `brightness`.
    pub fn text_lit(&mut self, text: &String, font: &Font, x: i64, y: i64, color: FlaskColor, brightness: Brightness)
        requires
            old(self).wf(),
        ensures
            Self::painted(*old(self), *final(self), solid(text_points(*font, vstd::utf8::encode_utf8(text@), x as int, y as int), lit_index(color, brightness))),
    {
        self.text_raw(text, font, x, y, resolve_index(color, brightness, FlaskColor::count()));
    }
}

} // verus!
