use vstd::prelude::*;

verus! {

/// Failures reported by configuration and decoding calls.
#[derive(Clone, Debug, PartialEq, Eq)]
pub enum FlaskError {
    /// A palette whose color count is zero, not a multiple of 4, or above 255.
    InvalidPaletteSize,
    /// A background color index of 0, which is reserved.
    BackgroundColorZero,
    /// A background color index beyond the palette.
    BackgroundColorOutOfBounds(u8),
    /// The image codec rejected the bytes; its message.
    Decode(String),
    /// The image is not stored as indexed color.
    NotIndexed,
    /// The decoded byte count does not match width times height.
    UnexpectedImageSize { width: u32, height: u32, byte_count: usize },
    /// A pixel byte that names no color.
    InvalidColorIndex(u8),
    /// The tile set's width is not a multiple of the tile width.
    TileWidthMismatch(u32),
    /// The tile set's height is not a multiple of the tile height.
    TileHeightMismatch(u32),
    /// A tile index past the end of the tile set.
    TileIndexOutOfBounds,
    /// The glyph sheet holds fewer images than the font needs.
    MissingGlyphImage,
    /// A frame buffer width that is not a multiple of 4.
    UnalignedBufferWidth(u32),
    /// A frame buffer with no pixels.
    EmptyBuffer,
    /// A frame buffer too large to address on this machine.
    BufferTooLarge,
}

} // verus!
