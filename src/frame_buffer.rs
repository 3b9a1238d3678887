use vstd::prelude::*;

use crate::error::FlaskError;

verus! {

/// A width × height grid of palette indices, stored row by row; index 0 is the background.
pub struct FrameBuffer {
    buffer_width: u32,
    buffer_height: u32,
    frame_buffer: Vec<u8>,
}

/// Offset of pixel `(x, y)` in a row-major grid of width `w`.
pub open spec fn pixel_offset(w: int, x: int, y: int) -> int {
    y * w + x
}

/// `pixels` after writing `c` at `(x, y)`, where writes outside the `w` × `h` grid are ignored.
pub open spec fn written(pixels: Seq<u8>, w: int, h: int, x: int, y: int, c: u8) -> Seq<u8> {
    if 0 <= x < w && 0 <= y < h {
        pixels.update(pixel_offset(w, x, y), c)
    } else {
        pixels
    }
}

/// A `w` × `h` grid of zeros.
pub open spec fn blank(w: int, h: int) -> Seq<u8> {
    Seq::new((w * h) as nat, |i: int| 0u8)
}

/// Offsets of the cells of a grid lie inside it.
pub proof fn lemma_offset_in_grid(w: int, h: int, x: int, y: int)
    requires
        0 <= x < w,
        0 <= y < h,
    ensures
        0 <= pixel_offset(w, x, y) < w * h,
{
    assert(0 <= y * w + x < w * h) by (nonlinear_arith)
        requires
            0 <= x < w,
            0 <= y < h,
    ;
}

/// Two cells of a grid share an offset only if they are the same cell.
pub proof fn lemma_offset_unique(w: int, x1: int, y1: int, x2: int, y2: int)
    requires
        0 <= x1 < w,
        0 <= x2 < w,
        0 <= y1,
        0 <= y2,
        pixel_offset(w, x1, y1) == pixel_offset(w, x2, y2),
    ensures
        x1 == x2 && y1 == y2,
{
    assert(y1 == y2) by (nonlinear_arith)
        requires
            0 <= x1 < w,
            0 <= x2 < w,
            0 <= y1,
            0 <= y2,
            y1 * w + x1 == y2 * w + x2,
    ;
}

impl FrameBuffer {
    pub closed spec fn wf(&self) -> bool {
        &&& self.frame_buffer@.len() == self.buffer_width * self.buffer_height
        &&& self.buffer_width * self.buffer_height <= usize::MAX
    }

    pub closed spec fn width(&self) -> int {
        self.buffer_width as int
    }

    pub closed spec fn height(&self) -> int {
        self.buffer_height as int
    }

    /// The grid, row by row.
    pub closed spec fn pixels(&self) -> Seq<u8> {
        self.frame_buffer@
    }

    pub open spec fn in_bounds(&self, x: int, y: int) -> bool {
        0 <= x < self.width() && 0 <= y < self.height()
    }

    /// The index stored at `(x, y)`.
    pub closed spec fn pixel(&self, x: int, y: int) -> u8 {
        self.frame_buffer@[pixel_offset(self.width(), x, y)]
    }

    /// The index at `(x, y)` is the cell at offset `y * width + x` of the row-major grid.
    pub proof fn lemma_pixel_layout(&self, x: int, y: int)
        requires
            self.wf(),
            self.in_bounds(x, y),
        ensures
            self.pixel(x, y) == self.pixels()[pixel_offset(self.width(), x, y)],
            self.pixels().len() == self.width() * self.height(),
            0 <= pixel_offset(self.width(), x, y) < self.pixels().len(),
    {
        lemma_offset_in_grid(self.width(), self.height(), x, y);
    }

    /// Width and height fit in `u32`.
    pub proof fn lemma_size(&self)
        ensures
            0 <= self.width() <= u32::MAX,
            0 <= self.height() <= u32::MAX,
    {
    }

    /// Two grids of one size that agree at every cell hold the same pixels.
    pub proof fn lemma_same_pixels(&self, other: FrameBuffer)
        requires
            self.wf(),
            other.wf(),
            self.width() == other.width(),
            self.height() == other.height(),
            forall|x: int, y: int| self.in_bounds(x, y) ==> #[trigger] self.pixel(x, y) == other.pixel(x, y),
        ensures
            self.pixels() == other.pixels(),
    {
        assert forall|i: int| 0 <= i < self.pixels().len() implies #[trigger] self.pixels()[i] == other.pixels()[i] by {
            let w = self.width();
            lemma_cell_of_offset(w, self.height(), i);
            assert(self.pixel(i % w, i / w) == other.pixel(i % w, i / w));
        }
        assert(self.pixels() =~= other.pixels());
    }

    /// A blank grid of the given size.
    pub fn new(buffer_width: u32, buffer_height: u32) -> (fb: FrameBuffer)
        requires
            buffer_width > 0,
            buffer_height > 0,
            buffer_width * buffer_height <= usize::MAX,
        ensures
            fb.wf(),
            fb.width() == buffer_width,
            fb.height() == buffer_height,
            fb.pixels() == blank(buffer_width as int, buffer_height as int),
    {
        let frame_buffer = Self::zeroed(buffer_width, buffer_height);
        FrameBuffer { buffer_width, buffer_height, frame_buffer }
    }

    fn zeroed(w: u32, h: u32) -> (v: Vec<u8>)
        requires
            w * h <= usize::MAX,
        ensures
            v@ == blank(w as int, h as int),
    {
        let n: usize = (w as usize) * (h as usize);
        let v: Vec<u8> = vec![0u8; n];
        assert(v@ =~= blank(w as int, h as int));
        v
    }

    pub fn get_width(&self) -> (r: u32)
        ensures
            r == self.width(),
    {
        self.buffer_width
    }

    pub fn get_height(&self) -> (r: u32)
        ensures
            r == self.height(),
    {
        self.buffer_height
    }

    /// Resets every index to 0.
    pub fn clear_screen(&mut self)
        requires
            old(self).wf(),
        ensures
            final(self).wf(),
            final(self).width() == old(self).width(),
            final(self).height() == old(self).height(),
            final(self).pixels() == blank(old(self).width(), old(self).height()),
            forall|px: int, py: int|
                old(self).in_bounds(px, py) ==> #[trigger] final(self).pixel(px, py) == 0,
    {
        self.frame_buffer = Self::zeroed(self.buffer_width, self.buffer_height);
        proof {
            assert forall|px: int, py: int| old(self).in_bounds(px, py) implies #[trigger] self.pixel(
                px,
                py,
            ) == 0 by {
                lemma_offset_in_grid(self.width(), self.height(), px, py);
            }
        }
    }

    /// Writes `color_idx` at `(x, y)`; a position outside the grid is ignored.
    pub fn set_pixel(&mut self, x: u32, y: u32, color_idx: u8)
        requires
            old(self).wf(),
        ensures
            final(self).wf(),
            final(self).width() == old(self).width(),
            final(self).height() == old(self).height(),
            final(self).pixels() == written(
                old(self).pixels(),
                old(self).width(),
                old(self).height(),
                x as int,
                y as int,
                color_idx,
            ),
            !old(self).in_bounds(x as int, y as int) ==> final(self).pixels() == old(self).pixels(),
            forall|px: int, py: int|
                old(self).in_bounds(px, py) ==> #[trigger] final(self).pixel(px, py) == if px == x
                    && py == y {
                    color_idx
                } else {
                    old(self).pixel(px, py)
                },
    {
        if x >= self.buffer_width || y >= self.buffer_height {
            return;
        }
        proof {
            lemma_offset_in_grid(self.width(), self.height(), x as int, y as int);
        }
        let offset: usize = (y as usize) * (self.buffer_width as usize) + (x as usize);
        self.frame_buffer.set(offset, color_idx);
        proof {
            assert forall|px: int, py: int| old(self).in_bounds(px, py) implies #[trigger] self.pixel(
                px,
                py,
            ) == if px == x && py == y {
                color_idx
            } else {
                old(self).pixel(px, py)
            } by {
                lemma_offset_in_grid(self.width(), self.height(), px, py);
                if pixel_offset(self.width(), px, py) == offset {
                    lemma_offset_unique(self.width(), px, py, x as int, y as int);
                }
            }
        }
    }

    /// The finished frame, row by row, for upload.
    pub fn present(&self) -> (r: &Vec<u8>)
        ensures
            r@ == self.pixels(),
    {
        &self.frame_buffer
    }
}

/// Each offset inside a `w` × `h` grid is the offset of cell `(i % w, i / w)`.
pub proof fn lemma_cell_of_offset(w: int, h: int, i: int)
    requires
        0 <= i < w * h,
        w >= 0,
        h >= 0,
    ensures
        0 <= i % w < w,
        0 <= i / w < h,
        pixel_offset(w, i % w, i / w) == i,
{
    assert(w > 0) by (nonlinear_arith)
        requires
            0 <= i < w * h,
            w >= 0,
            h >= 0,
    ;
    vstd::arithmetic::div_mod::lemma_fundamental_div_mod(i, w);
    vstd::arithmetic::div_mod::lemma_div_pos_is_pos(i, w);
    vstd::arithmetic::mul::lemma_mul_is_commutative(w, i / w);
    assert(i / w < h) by (nonlinear_arith)
        requires
            w > 0,
            0 <= i < w * h,
            i == w * (i / w) + i % w,
            i % w >= 0,
    ;
}

/// Checks frame buffer dimensions before construction: the width must be a multiple of 4, both
/// sizes positive, and the grid addressable. `Ok` is exactly what `FrameBuffer::new` needs.
pub fn check_buffer_size(buffer_width: u32, buffer_height: u32) -> (r: Result<(), FlaskError>)
    ensures
        r is Ok <==> buffer_width % 4 == 0 && buffer_width > 0 && buffer_height > 0
            && buffer_width * buffer_height <= usize::MAX,
        r matches Err(e) ==> {
            ||| buffer_width % 4 != 0 && e == FlaskError::UnalignedBufferWidth(buffer_width)
            ||| buffer_width % 4 == 0 && (buffer_width == 0 || buffer_height == 0) && e
                == FlaskError::EmptyBuffer
            ||| buffer_width % 4 == 0 && buffer_width > 0 && buffer_height > 0 && buffer_width
                * buffer_height > usize::MAX && e == FlaskError::BufferTooLarge
        },
{
    if buffer_width % 4 != 0 {
        return Err(FlaskError::UnalignedBufferWidth(buffer_width));
    }
    if buffer_width == 0 || buffer_height == 0 {
        return Err(FlaskError::EmptyBuffer);
    }
    assert(buffer_width as u64 * buffer_height as u64 <= u64::MAX) by (nonlinear_arith)
        requires
            buffer_width <= u32::MAX,
            buffer_height <= u32::MAX,
    ;
    let cells: u64 = buffer_width as u64 * buffer_height as u64;
    if cells > usize::MAX as u64 {
        return Err(FlaskError::BufferTooLarge);
    }
    Ok(())
}

/// The grid after a sequence of `(x, y, index)` writes, in order.
pub open spec fn apply_writes(pixels: Seq<u8>, w: int, h: int, writes: Seq<(int, int, u8)>) -> Seq<
    u8,
>
    decreases writes.len(),
{
    if writes.len() == 0 {
        pixels
    } else {
        let last = writes.last();
        written(apply_writes(pixels, w, h, writes.drop_last()), w, h, last.0, last.1, last.2)
    }
}

/// The index of the last write at `(x, y)`, or 0 if there is none.
pub open spec fn last_write_at(writes: Seq<(int, int, u8)>, x: int, y: int) -> u8
    decreases writes.len(),
{
    if writes.len() == 0 {
        0
    } else if writes.last().0 == x && writes.last().1 == y {
        writes.last().2
    } else {
        last_write_at(writes.drop_last(), x, y)
    }
}

/// After a clear, any sequence of writes leaves exactly the last index written at each cell and 0
/// at every cell that no write reached; the grid keeps its size.
pub proof fn lemma_clear_then_writes(w: int, h: int, writes: Seq<(int, int, u8)>)
    requires
        w > 0,
        h > 0,
    ensures
        apply_writes(blank(w, h), w, h, writes).len() == w * h,
        forall|x: int, y: int|
            0 <= x < w && 0 <= y < h ==> #[trigger] apply_writes(blank(w, h), w, h, writes)[
                pixel_offset(w, x, y)] == last_write_at(writes, x, y),
    decreases writes.len(),
{
    assert(w * h > 0) by (nonlinear_arith)
        requires
            w > 0,
            h > 0,
    ;
    assert(blank(w, h).len() == w * h);
    if writes.len() == 0 {
        assert(apply_writes(blank(w, h), w, h, writes) == blank(w, h));
        assert forall|x: int, y: int| 0 <= x < w && 0 <= y < h implies #[trigger] apply_writes(
            blank(w, h),
            w,
            h,
            writes,
        )[pixel_offset(w, x, y)] == last_write_at(writes, x, y) by {
            lemma_offset_in_grid(w, h, x, y);
        }
    } else {
        let prev = writes.drop_last();
        lemma_clear_then_writes(w, h, prev);
        let last = writes.last();
        assert(apply_writes(blank(w, h), w, h, writes) == written(
            apply_writes(blank(w, h), w, h, prev),
            w,
            h,
            last.0,
            last.1,
            last.2,
        ));
        if 0 <= last.0 < w && 0 <= last.1 < h {
            lemma_offset_in_grid(w, h, last.0, last.1);
        }
        assert forall|x: int, y: int| 0 <= x < w && 0 <= y < h implies #[trigger] apply_writes(
            blank(w, h),
            w,
            h,
            writes,
        )[pixel_offset(w, x, y)] == last_write_at(writes, x, y) by {
            lemma_offset_in_grid(w, h, x, y);
            if 0 <= last.0 < w && 0 <= last.1 < h {
                lemma_offset_in_grid(w, h, last.0, last.1);
                if pixel_offset(w, x, y) == pixel_offset(w, last.0, last.1) {
                    lemma_offset_unique(w, x, y, last.0, last.1);
                }
            }
            assert(apply_writes(blank(w, h), w, h, prev)[pixel_offset(w, x, y)] == last_write_at(
                prev,
                x,
                y,
            ));
        }
    }
}

} // verus!
