use vstd::prelude::*;

use crate::error::FlaskError;
use crate::frame_buffer::{lemma_cell_of_offset, lemma_offset_in_grid, pixel_offset};
use crate::palette::{BASE_COLOR_COUNT, FlaskColor};

verus! {

/// How a decoded image stores its pixels.
#[derive(Copy, Clone, Debug, PartialEq, Eq, Structural)]
pub enum ImageColorType {
    Grayscale,
    Rgb,
    Indexed,
    GrayscaleAlpha,
    Rgba,
}

/// An image as the codec hands it out: its color type, size and raw samples, top row first.
pub struct DecodedImage {
    pub color_type: ImageColorType,
    pub width: u32,
    pub height: u32,
    pub data: Vec<u8>,
}

/// What the PNG codec makes of a byte stream, with no transformation applied: the color type,
/// width, height and samples of its first frame, or the codec's error message.
pub uninterp spec fn png_decoded(bytes: Seq<u8>) -> Result<(ImageColorType, u32, u32, Seq<u8>), Seq<char>>;

/// A decoding outcome: header fields and samples, or an error message.
pub type PngDecoding = Result<(ImageColorType, u32, u32, Seq<u8>), Seq<char>>;

/// Relies on png's `Decoder::read_info` and `Reader::next_frame` with
/// `Transformations::IDENTITY`: the first frame's header fields and samples, or the codec's error
/// rendered as text. The result depends on the bytes alone.
#[verifier::external_body]
fn decode_png(png_bytes: &[u8]) -> (r: Result<DecodedImage, String>)
    ensures
        r matches Ok(img) ==> png_decoded(png_bytes@) == PngDecoding::Ok((img.color_type, img.width, img.height, img.data@)),
        r matches Err(msg) ==> png_decoded(png_bytes@) == PngDecoding::Err(msg@),
{
    let mut decoder = png::Decoder::new(png_bytes);
    decoder.set_transformations(png::Transformations::IDENTITY);
    let mut reader = match decoder.read_info() { Ok(r) => r.1, Err(e) => return Err(e.to_string()) };
    let mut data = vec![0; reader.output_buffer_size()];
    if let Err(e) = reader.next_frame(&mut data) { return Err(e.to_string()); }
    let info = reader.info();
    let color_type = match info.color_type {
        png::ColorType::Grayscale => ImageColorType::Grayscale, png::ColorType::RGB => ImageColorType::Rgb,
        png::ColorType::Indexed => ImageColorType::Indexed, png::ColorType::RGBA => ImageColorType::Rgba,
        png::ColorType::GrayscaleAlpha => ImageColorType::GrayscaleAlpha,
    };
    Ok(DecodedImage { color_type, width: info.width, height: info.height, data })
}

/// The color a pixel byte names; bytes past the palette read as transparent.
pub open spec fn color_of_index(b: u8) -> FlaskColor {
    match FlaskColor::spec_from_index(b) {
        Some(c) => c,
        None => FlaskColor::Transparent,
    }
}

/// Every byte names a color.
pub open spec fn all_color_indices(data: Seq<u8>) -> bool {
    forall|i: int| 0 <= i < data.len() ==> #[trigger] data[i] <= BASE_COLOR_COUNT
}

/// An image the sprite decoder accepts.
pub open spec fn valid_sprite_image(ct: ImageColorType, w: u32, h: u32, data: Seq<u8>) -> bool {
    &&& ct == ImageColorType::Indexed
    &&& w * h == data.len()
    &&& all_color_indices(data)
}

/// The byte of the image at `(x, y)` with `y` growing upward: row `h - 1 - y` from the top.
pub open spec fn image_byte(data: Seq<u8>, w: int, h: int, x: int, y: int) -> u8 {
    data[pixel_offset(w, x, h - 1 - y)]
}

/// `s` shows the image: same size, and each pixel is the color its byte names, bottom row first.
pub open spec fn shows_image(s: Sprite, w: u32, h: u32, data: Seq<u8>) -> bool {
    &&& s.spec_width() == w
    &&& s.spec_height() == h
    &&& forall|x: int, y: int|
        0 <= x < w && 0 <= y < h ==> #[trigger] s.color_at(x, y) == color_of_index(
            image_byte(data, w as int, h as int, x, y),
        )
}

/// What the sprite decoder returns for a decoded image.
pub open spec fn sprite_from_image(
    ct: ImageColorType,
    w: u32,
    h: u32,
    data: Seq<u8>,
    r: Result<Sprite, FlaskError>,
) -> bool {
    &&& r is Ok <==> valid_sprite_image(ct, w, h, data)
    &&& r matches Ok(s) ==> shows_image(s, w, h, data)
    &&& r matches Err(e) ==> {
        ||| ct != ImageColorType::Indexed && e == FlaskError::NotIndexed
        ||| ct == ImageColorType::Indexed && w * h != data.len() && e == (FlaskError::UnexpectedImageSize {
            width: w,
            height: h,
            byte_count: data.len() as usize,
        })
        ||| ct == ImageColorType::Indexed && w * h == data.len() && (e matches FlaskError::InvalidColorIndex(
            b,
        ) && b > BASE_COLOR_COUNT && data.contains(b))
    }
}

/// What `Sprite::from_indexed_8bit_png` returns for a byte stream.
pub open spec fn sprite_from_png(bytes: Seq<u8>, r: Result<Sprite, FlaskError>) -> bool {
    match png_decoded(bytes) {
        Ok((ct, w, h, data)) => sprite_from_image(ct, w, h, data, r),
        Err(msg) => r matches Err(FlaskError::Decode(m)) && m@ == msg,
    }
}

/// An immutable grid of colors, indexed `(x, y)` with `y` growing upward.
pub struct Sprite {
    width: u32,
    height: u32,
    pixels: Vec<Vec<FlaskColor>>,
}

impl Sprite {
    #[verifier::type_invariant]
    spec fn inv(&self) -> bool {
        &&& self.pixels@.len() == self.width
        &&& forall|x: int| 0 <= x < self.width ==> (#[trigger] self.pixels@[x])@.len() == self.height
    }

    pub closed spec fn spec_width(&self) -> u32 {
        self.width
    }

    pub closed spec fn spec_height(&self) -> u32 {
        self.height
    }

    /// The color at `(x, y)`; `Transparent` outside the grid.
    pub closed spec fn color_at(&self, x: int, y: int) -> FlaskColor {
        if 0 <= x < self.width && 0 <= y < self.height {
            self.pixels@[x]@[y]
        } else {
            FlaskColor::Transparent
        }
    }

    /// A sprite from its columns: `pixels[x][y]` is the color at `(x, y)`.
    pub fn from_pixels(width: u32, height: u32, pixels: Vec<Vec<FlaskColor>>) -> (s: Sprite)
        requires
            pixels@.len() == width,
            forall|x: int| 0 <= x < width ==> (#[trigger] pixels@[x])@.len() == height,
        ensures
            s.spec_width() == width,
            s.spec_height() == height,
            forall|x: int, y: int|
                0 <= x < width && 0 <= y < height ==> #[trigger] s.color_at(x, y) == pixels@[x]@[y],
    {
        Sprite { width, height, pixels }
    }

    pub fn get_width(&self) -> (r: u32)
        ensures
            r == self.spec_width(),
    {
        self.width
    }

    pub fn get_height(&self) -> (r: u32)
        ensures
            r == self.spec_height(),
    {
        self.height
    }

    /// The color at `(x, y)`; `Transparent` outside the sprite.
    pub fn get_color_index_at(&self, x: u32, y: u32) -> (c: FlaskColor)
        ensures
            c == self.color_at(x as int, y as int),
            x >= self.spec_width() || y >= self.spec_height() ==> c == FlaskColor::Transparent,
    {
        proof {
            use_type_invariant(self);
        }
        if x >= self.width || y >= self.height {
            return FlaskColor::Transparent;
        }
        self.pixels[x as usize][y as usize]
    }

    /// A sprite from a decoded image: it must be indexed, hold exactly width × height bytes, and
    /// each byte must name a color. Rows are flipped so that `y` grows upward.
    pub fn from_decoded_image(img: &DecodedImage) -> (r: Result<Sprite, FlaskError>)
        ensures
            sprite_from_image(img.color_type, img.width, img.height, img.data@, r),
    {
        if img.color_type != ImageColorType::Indexed {
            return Err(FlaskError::NotIndexed);
        }
        let w = img.width;
        let h = img.height;
        assert(w as u64 * h as u64 <= u64::MAX) by (nonlinear_arith)
            requires
                w <= u32::MAX,
                h <= u32::MAX,
        ;
        if w as u64 * h as u64 != img.data.len() as u64 {
            return Err(FlaskError::UnexpectedImageSize { width: w, height: h, byte_count: img.data.len() });
        }
        let ghost data = img.data@;
        let n: usize = img.data.len();
        let mut pixels: Vec<Vec<FlaskColor>> = Vec::new();
        let mut x: u32 = 0;
        while x < w
            invariant
                data == img.data@,
                img.color_type == ImageColorType::Indexed,
                w == img.width,
                h == img.height,
                w * h == data.len(),
                n == data.len(),
                x <= w,
                pixels@.len() == x,
                forall|i: int| 0 <= i < x ==> (#[trigger] pixels@[i])@.len() == h,
                forall|i: int, j: int|
                    0 <= i < x && 0 <= j < h ==> #[trigger] pixels@[i]@[j] == color_of_index(
                        image_byte(data, w as int, h as int, i, j),
                    ),
                forall|i: int, j: int|
                    0 <= i < x && 0 <= j < h ==> #[trigger] image_byte(data, w as int, h as int, i, j)
                        <= BASE_COLOR_COUNT,
            decreases w - x,
        {
            let mut column: Vec<FlaskColor> = Vec::new();
            let mut y: u32 = 0;
            while y < h
                invariant
                    data == img.data@,
                    img.color_type == ImageColorType::Indexed,
                    w == img.width,
                    h == img.height,
                    w * h == data.len(),
                    n == data.len(),
                    x < w,
                    y <= h,
                    column@.len() == y,
                    forall|j: int|
                        0 <= j < y ==> #[trigger] column@[j] == color_of_index(
                            image_byte(data, w as int, h as int, x as int, j),
                        ),
                    forall|j: int|
                        0 <= j < y ==> #[trigger] image_byte(data, w as int, h as int, x as int, j)
                            <= BASE_COLOR_COUNT,
                decreases h - y,
            {
                proof {
                    lemma_offset_in_grid(w as int, h as int, x as int, h - 1 - y);
                }
                let offset: usize = ((h - 1 - y) as usize) * (w as usize) + (x as usize);
                let byte = img.data[offset];
                match FlaskColor::from_index(byte) {
                    Some(c) => column.push(c),
                    None => {
                        assert(data[offset as int] == byte);
                        return Err(FlaskError::InvalidColorIndex(byte));
                    },
                }
                y = y + 1;
            }
            pixels.push(column);
            x = x + 1;
        }
        proof {
            assert forall|i: int| 0 <= i < data.len() implies #[trigger] data[i] <= BASE_COLOR_COUNT by {
                lemma_cell_of_offset(w as int, h as int, i);
                let cx = i % (w as int);
                let cy = i / (w as int);
                assert(image_byte(data, w as int, h as int, cx, h - 1 - cy) <= BASE_COLOR_COUNT);
            }
        }
        let s = Sprite { width: w, height: h, pixels };
        Ok(s)
    }

    /// Decodes an indexed 8-bit PNG into a sprite whose `y` grows upward.
    pub fn from_indexed_8bit_png(png_bytes: &[u8]) -> (r: Result<Sprite, FlaskError>)
        ensures
            sprite_from_png(png_bytes@, r),
    {
        match decode_png(png_bytes) {
            Ok(img) => Sprite::from_decoded_image(&img),
            Err(msg) => Err(FlaskError::Decode(msg)),
        }
    }
}

/// `t` is the `tw` × `th` block of `s` whose lower-left corner is `(x0, y0)`.
pub open spec fn is_block(s: Sprite, x0: int, y0: int, tw: int, th: int, t: Sprite) -> bool {
    &&& t.spec_width() == tw
    &&& t.spec_height() == th
    &&& forall|x: int, y: int|
        0 <= x < tw && 0 <= y < th ==> #[trigger] t.color_at(x, y) == s.color_at(x0 + x, y0 + y)
}

/// `tiles` cuts `s` into `tw` × `th` tiles, row by row from the top of the image and left to
/// right: tile `t` is the block in column `t % columns` and in row `t / columns` from the top.
pub open spec fn cuts_into_tiles(s: Sprite, tw: int, th: int, tiles: Seq<Sprite>) -> bool {
    let columns = s.spec_width() as int / tw;
    let rows = s.spec_height() as int / th;
    &&& tiles.len() == rows * columns
    &&& forall|t: int|
        0 <= t < tiles.len() ==> is_block(
            s,
            (t % columns) * tw,
            (rows - 1 - t / columns) * th,
            tw,
            th,
            #[trigger] tiles[t],
        )
}

/// What `TileSet::from_sprite` returns.
pub open spec fn tiles_from_sprite(s: Sprite, tw: u32, th: u32, r: Result<TileSet, FlaskError>) -> bool {
    &&& r is Ok <==> s.spec_width() % tw == 0 && s.spec_height() % th == 0
    &&& r matches Ok(ts) ==> cuts_into_tiles(s, tw as int, th as int, ts.tiles())
    &&& r matches Err(e) ==> {
        ||| s.spec_width() % tw != 0 && e == FlaskError::TileWidthMismatch(tw)
        ||| s.spec_width() % tw == 0 && s.spec_height() % th != 0 && e
            == FlaskError::TileHeightMismatch(th)
    }
}

/// Equally sized sprites cut from one image.
pub struct TileSet {
    tileset: Vec<Sprite>,
}

impl TileSet {
    pub closed spec fn tiles(&self) -> Seq<Sprite> {
        self.tileset@
    }

    fn cut_tile(sprite: &Sprite, x0: u32, y0: u32, tw: u32, th: u32) -> (t: Sprite)
        requires
            x0 + tw <= sprite.spec_width(),
            y0 + th <= sprite.spec_height(),
        ensures
            is_block(*sprite, x0 as int, y0 as int, tw as int, th as int, t),
    {
        proof {
            use_type_invariant(sprite);
        }
        let mut pixels: Vec<Vec<FlaskColor>> = Vec::new();
        let mut x: u32 = 0;
        while x < tw
            invariant
                x0 + tw <= sprite.spec_width(),
                y0 + th <= sprite.spec_height(),
                sprite.pixels@.len() == sprite.width,
                forall|i: int| 0 <= i < sprite.width ==> (#[trigger] sprite.pixels@[i])@.len() == sprite.height,
                x <= tw,
                pixels@.len() == x,
                forall|i: int| 0 <= i < x ==> (#[trigger] pixels@[i])@.len() == th,
                forall|i: int, j: int|
                    0 <= i < x && 0 <= j < th ==> #[trigger] pixels@[i]@[j] == sprite.color_at(
                        x0 + i,
                        y0 + j,
                    ),
            decreases tw - x,
        {
            let mut column: Vec<FlaskColor> = Vec::new();
            let mut y: u32 = 0;
            while y < th
                invariant
                    x0 + tw <= sprite.spec_width(),
                    y0 + th <= sprite.spec_height(),
                    sprite.pixels@.len() == sprite.width,
                    forall|i: int| 0 <= i < sprite.width ==> (#[trigger] sprite.pixels@[i])@.len() == sprite.height,
                    x < tw,
                    y <= th,
                    column@.len() == y,
                    forall|j: int| 0 <= j < y ==> #[trigger] column@[j] == sprite.color_at(x0 + x, y0 + j),
                decreases th - y,
            {
                let c = sprite.pixels[(x0 + x) as usize][(y0 + y) as usize];
                column.push(c);
                y = y + 1;
            }
            pixels.push(column);
            x = x + 1;
        }
        Sprite::from_pixels(tw, th, pixels)
    }

    /// Cuts a sprite into `tile_width` × `tile_height` tiles, row by row from the top of the
    /// image, each row left to right.
    pub fn from_sprite(sprite: &Sprite, tile_width: u32, tile_height: u32) -> (r: Result<TileSet, FlaskError>)
        requires
            tile_width > 0,
            tile_height > 0,
        ensures
            tiles_from_sprite(*sprite, tile_width, tile_height, r),
    {
        let w = sprite.get_width();
        let h = sprite.get_height();
        if w % tile_width != 0 {
            return Err(FlaskError::TileWidthMismatch(tile_width));
        }
        if h % tile_height != 0 {
            return Err(FlaskError::TileHeightMismatch(tile_height));
        }
        let columns = w / tile_width;
        let rows = h / tile_height;
        proof {
            vstd::arithmetic::div_mod::lemma_fundamental_div_mod(w as int, tile_width as int);
            vstd::arithmetic::div_mod::lemma_fundamental_div_mod(h as int, tile_height as int);
        }
        let mut tileset: Vec<Sprite> = Vec::new();
        let mut done: u32 = 0;
        while done < rows
            invariant
                w == sprite.spec_width(),
                h == sprite.spec_height(),
                tile_width > 0,
                tile_height > 0,
                columns == w / tile_width,
                rows == h / tile_height,
                w == tile_width * columns,
                h == tile_height * rows,
                done <= rows,
                tileset@.len() == done * columns,
                forall|t: int|
                    0 <= t < tileset@.len() ==> is_block(
                        *sprite,
                        (t % columns as int) * tile_width,
                        (rows - 1 - t / columns as int) * tile_height,
                        tile_width as int,
                        tile_height as int,
                        #[trigger] tileset@[t],
                    ),
            decreases rows - done,
        {
            let row = rows - 1 - done;
            let mut column: u32 = 0;
            while column < columns
                invariant
                    w == sprite.spec_width(),
                    h == sprite.spec_height(),
                    tile_width > 0,
                    tile_height > 0,
                    columns == w / tile_width,
                    rows == h / tile_height,
                    w == tile_width * columns,
                    h == tile_height * rows,
                    done < rows,
                    row == rows - 1 - done,
                    column <= columns,
                    tileset@.len() == done * columns + column,
                    forall|t: int|
                        0 <= t < tileset@.len() ==> is_block(
                            *sprite,
                            (t % columns as int) * tile_width,
                            (rows - 1 - t / columns as int) * tile_height,
                            tile_width as int,
                            tile_height as int,
                            #[trigger] tileset@[t],
                        ),
                decreases columns - column,
            {
                proof {
                    assert(column * tile_width + tile_width <= w) by (nonlinear_arith)
                        requires
                            column < columns,
                            w == tile_width * columns,
                            tile_width > 0,
                    ;
                    assert(row * tile_height + tile_height <= h) by (nonlinear_arith)
                        requires
                            row < rows,
                            h == tile_height * rows,
                            tile_height > 0,
                    ;
                }
                let tile = Self::cut_tile(sprite, column * tile_width, row * tile_height, tile_width, tile_height);
                proof {
                    let t = done * columns + column;
                    vstd::arithmetic::div_mod::lemma_fundamental_div_mod_converse(
                        t as int,
                        columns as int,
                        done as int,
                        column as int,
                    );
                }
                tileset.push(tile);
                column = column + 1;
            }
            proof {
                assert(done * columns + columns == (done + 1) * columns) by (nonlinear_arith);
            }
            done = done + 1;
        }
        Ok(TileSet { tileset })
    }

    /// Decodes an indexed 8-bit PNG and cuts it into tiles.
    pub fn from_indexed_8bit_png(png_bytes: &[u8], tile_width: u32, tile_height: u32) -> (r: Result<TileSet, FlaskError>)
        requires
            tile_width > 0,
            tile_height > 0,
        ensures
            match png_decoded(png_bytes@) {
                Ok((ct, w, h, data)) => if valid_sprite_image(ct, w, h, data) {
                    exists|s: Sprite| shows_image(s, w, h, data) && tiles_from_sprite(s, tile_width, tile_height, r)
                } else {
                    exists|s: Result<Sprite, FlaskError>| sprite_from_image(ct, w, h, data, s) && s is Err && r is Err && r->Err_0 == s->Err_0
                },
                Err(msg) => r matches Err(FlaskError::Decode(m)) && m@ == msg,
            },
    {
        let sprite = match Sprite::from_indexed_8bit_png(png_bytes) {
            Ok(s) => s,
            Err(e) => {
                return Err(e);
            },
        };
        TileSet::from_sprite(&sprite, tile_width, tile_height)
    }

    pub fn len(&self) -> (n: usize)
        ensures
            n == self.tiles().len(),
    {
        self.tileset.len()
    }

    /// The tile at `index`, or `TileIndexOutOfBounds` past the last one.
    pub fn get_tile_at_index(&self, index: u32) -> (r: Result<&Sprite, FlaskError>)
        ensures
            r is Ok <==> index < self.tiles().len(),
            r matches Ok(s) ==> *s == self.tiles()[index as int],
            r matches Err(e) ==> e == FlaskError::TileIndexOutOfBounds,
    {
        if index as usize >= self.tileset.len() {
            return Err(FlaskError::TileIndexOutOfBounds);
        }
        Ok(&self.tileset[index as usize])
    }
}

} // verus!
