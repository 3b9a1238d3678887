use vstd::prelude::*;

use std::collections::HashMap;

use crate::error::FlaskError;
use crate::sprite::{Sprite, png_decoded, sprite_from_png, valid_sprite_image};

verus! {

broadcast use vstd::std_specs::hash::group_hash_axioms;

/// Number of images in the 3×5 glyph sheet.
pub const GLYPH_SHEET_LEN: usize = 94;

/// Position in the 3×5 glyph sheet of the fallback glyph drawn for unmapped bytes.
pub const NULL_GLYPH_IMAGE: usize = 92;

/// Position in the 3×5 glyph sheet of the image for punctuation byte `ch`, if the font maps it:
/// ``. , ! ? : ; < > = ( ) ' % $ & # " - + _ { } * / ` ^ | ~ [ ]`` are images 62 to 91 in this
/// order.
pub open spec fn mark_image(ch: u8) -> Option<int> {
    if ch == 0 {
        None
    } else if ch == 46 {
        Some(62)
    } else if ch == 44 {
        Some(63)
    } else if ch == 33 {
        Some(64)
    } else if ch == 63 {
        Some(65)
    } else if ch == 58 {
        Some(66)
    } else if ch == 59 {
        Some(67)
    } else if ch == 60 {
        Some(68)
    } else if ch == 62 {
        Some(69)
    } else if ch == 61 {
        Some(70)
    } else if ch == 40 {
        Some(71)
    } else if ch == 41 {
        Some(72)
    } else if ch == 39 {
        Some(73)
    } else if ch == 37 {
        Some(74)
    } else if ch == 36 {
        Some(75)
    } else if ch == 38 {
        Some(76)
    } else if ch == 35 {
        Some(77)
    } else if ch == 34 {
        Some(78)
    } else if ch == 45 {
        Some(79)
    } else if ch == 43 {
        Some(80)
    } else if ch == 95 {
        Some(81)
    } else if ch == 123 {
        Some(82)
    } else if ch == 125 {
        Some(83)
    } else if ch == 42 {
        Some(84)
    } else if ch == 47 {
        Some(85)
    } else if ch == 96 {
        Some(86)
    } else if ch == 94 {
        Some(87)
    } else if ch == 124 {
        Some(88)
    } else if ch == 126 {
        Some(89)
    } else if ch == 91 {
        Some(90)
    } else if ch == 93 {
        Some(91)
    } else {
        None
    }
}

/// Position in the 3×5 glyph sheet of the image for byte `ch`, if the font maps it: `a` to `z`
/// are images 0 to 25, `A` to `Z` 26 to 51, `0` to `9` 52 to 61, the punctuation of
/// `mark_image` 62 to 91, and `@` is 93.
pub open spec fn glyph_image(ch: u8) -> Option<int> {
    if 97 <= ch <= 122 {
        Some(ch - 97)
    } else if 65 <= ch <= 90 {
        Some(ch - 65 + 26)
    } else if 48 <= ch <= 57 {
        Some(ch - 48 + 52)
    } else if ch == 64 {
        Some(93)
    } else {
        mark_image(ch)
    }
}

/// The sheet image decodes to a sprite.
pub open spec fn image_decodes(bytes: Seq<u8>) -> bool {
    png_decoded(bytes) matches Ok((ct, w, h, data)) && valid_sprite_image(ct, w, h, data)
}

/// A fixed-size bitmap font: sprites for some bytes and a fallback for all others.
pub struct Font {
    null_glyph: Sprite,
    glyphs: HashMap<u8, Sprite>,
}

impl Font {
    pub closed spec fn null_glyph(&self) -> Sprite {
        self.null_glyph
    }

    /// The glyph drawn for byte `ch`.
    pub closed spec fn glyph(&self, ch: u8) -> Sprite {
        if self.glyphs@.contains_key(ch) {
            self.glyphs@[ch]
        } else {
            self.null_glyph
        }
    }

    /// A font that draws `null_glyph` for every byte.
    pub fn new(null_glyph: Sprite) -> (f: Font)
        ensures
            f.null_glyph() == null_glyph,
            forall|ch: u8| #[trigger] f.glyph(ch) == null_glyph,
    {
        Font { null_glyph, glyphs: HashMap::new() }
    }

    /// Maps byte `ch` to `glyph`.
    pub fn add_glyph(&mut self, ch: u8, glyph: Sprite)
        ensures
            final(self).null_glyph() == old(self).null_glyph(),
            final(self).glyph(ch) == glyph,
            forall|c: u8| c != ch ==> #[trigger] final(self).glyph(c) == old(self).glyph(c),
    {
        self.glyphs.insert(ch, glyph);
    }

    /// The glyph for `ch`, or the fallback glyph when `ch` has none.
    pub fn get_glyph(&self, ch: &u8) -> (g: &Sprite)
        ensures
            *g == self.glyph(*ch),
    {
        match self.glyphs.get(ch) {
            Some(glyph) => glyph,
            None => &self.null_glyph,
        }
    }

    /// Width of the fallback glyph, the advance of a space.
    pub fn get_glyph_width(&self) -> (w: u32)
        ensures
            w == self.null_glyph().spec_width(),
    {
        self.null_glyph.get_width()
    }

    /// Height of the fallback glyph, the advance of a line.
    pub fn get_glyph_height(&self) -> (h: u32)
        ensures
            h == self.null_glyph().spec_height(),
    {
        self.null_glyph.get_height()
    }

    /// Appends `(first + j, image + j)` for each byte from `first` to `last`.
    fn push_range(r: &mut Vec<(u8, usize)>, first: u8, last: u8, image: usize)
        requires
            first <= last,
            image + (last - first) < 100,
        ensures
            final(r)@.len() == old(r)@.len() + (last - first) + 1,
            forall|j: int| 0 <= j < old(r)@.len() ==> #[trigger] final(r)@[j] == old(r)@[j],
            forall|j: int|
                0 <= j <= last - first ==> #[trigger] final(r)@[old(r)@.len() + j] == ((first + j) as u8, (
                image + j) as usize),
    {
        let ghost start = r@;
        let count: u16 = (last - first) as u16 + 1;
        let mut k: u16 = 0;
        while k < count
            invariant
                count == last - first + 1,
                k <= count,
                image + (last - first) < 100,
                r@.len() == start.len() + k,
                forall|j: int| 0 <= j < start.len() ==> #[trigger] r@[j] == start[j],
                forall|j: int|
                    0 <= j < k ==> #[trigger] r@[start.len() + j] == ((first + j) as u8, (image + j) as usize),
            decreases count - k,
        {
            r.push(((first as u16 + k) as u8, image + k as usize));
            k = k + 1;
        }
    }

    /// Every byte the font maps, each with its sheet image; images 0 to 91 in order, then `@`.
    fn sheet_entries() -> (r: Vec<(u8, usize)>)
        ensures
            forall|j: int| 0 <= j < r@.len() ==> #[trigger] glyph_image(r@[j].0) == Some(r@[j].1 as int),
            forall|ch: u8| #[trigger] glyph_image(ch) is Some ==> exists|j: int| 0 <= j < r@.len() && r@[j].0 == ch,
    {
        let mut r: Vec<(u8, usize)> = Vec::new();
        Self::push_range(&mut r, 97, 122, 0);
        Self::push_range(&mut r, 65, 90, 26);
        Self::push_range(&mut r, 48, 57, 52);
        r.push((46, 62));
        r.push((44, 63));
        r.push((33, 64));
        r.push((63, 65));
        r.push((58, 66));
        r.push((59, 67));
        r.push((60, 68));
        r.push((62, 69));
        r.push((61, 70));
        r.push((40, 71));
        r.push((41, 72));
        r.push((39, 73));
        r.push((37, 74));
        r.push((36, 75));
        r.push((38, 76));
        r.push((35, 77));
        r.push((34, 78));
        r.push((45, 79));
        r.push((43, 80));
        r.push((95, 81));
        r.push((123, 82));
        r.push((125, 83));
        r.push((42, 84));
        r.push((47, 85));
        r.push((96, 86));
        r.push((94, 87));
        r.push((124, 88));
        r.push((126, 89));
        r.push((91, 90));
        r.push((93, 91));
        r.push((64, 93));
        proof {
            assert forall|j: int| 0 <= j < r@.len() implies #[trigger] glyph_image(r@[j].0) == Some(r@[j].1 as int) by {
                if j < 26 {
                    assert(r@[0 + j] == ((97 + j) as u8, j as usize));
                } else if j < 52 {
                    assert(r@[26 + (j - 26)] == ((65 + (j - 26)) as u8, (26 + (j - 26)) as usize));
                } else if j < 62 {
                    assert(r@[52 + (j - 52)] == ((48 + (j - 52)) as u8, (52 + (j - 52)) as usize));
                }
            }
            assert forall|ch: u8| #[trigger] glyph_image(ch) is Some implies exists|j: int|
                0 <= j < r@.len() && r@[j].0 == ch by {
                if 97 <= ch <= 122 {
                    assert(r@[0 + (ch - 97)].0 == ch);
                } else if 65 <= ch <= 90 {
                    assert(r@[26 + (ch - 65)].0 == ch);
                } else if 48 <= ch <= 57 {
                    assert(r@[52 + (ch - 48)].0 == ch);
                } else if ch == 64 {
                    assert(r@[92].0 == ch);
                } else if ch == 46 {
                    assert(r@[62].0 == ch);
                } else if ch == 44 {
                    assert(r@[63].0 == ch);
                } else if ch == 33 {
                    assert(r@[64].0 == ch);
                } else if ch == 63 {
                    assert(r@[65].0 == ch);
                } else if ch == 58 {
                    assert(r@[66].0 == ch);
                } else if ch == 59 {
                    assert(r@[67].0 == ch);
                } else if ch == 60 {
                    assert(r@[68].0 == ch);
                } else if ch == 62 {
                    assert(r@[69].0 == ch);
                } else if ch == 61 {
                    assert(r@[70].0 == ch);
                } else if ch == 40 {
                    assert(r@[71].0 == ch);
                } else if ch == 41 {
                    assert(r@[72].0 == ch);
                } else if ch == 39 {
                    assert(r@[73].0 == ch);
                } else if ch == 37 {
                    assert(r@[74].0 == ch);
                } else if ch == 36 {
                    assert(r@[75].0 == ch);
                } else if ch == 38 {
                    assert(r@[76].0 == ch);
                } else if ch == 35 {
                    assert(r@[77].0 == ch);
                } else if ch == 34 {
                    assert(r@[78].0 == ch);
                } else if ch == 45 {
                    assert(r@[79].0 == ch);
                } else if ch == 43 {
                    assert(r@[80].0 == ch);
                } else if ch == 95 {
                    assert(r@[81].0 == ch);
                } else if ch == 123 {
                    assert(r@[82].0 == ch);
                } else if ch == 125 {
                    assert(r@[83].0 == ch);
                } else if ch == 42 {
                    assert(r@[84].0 == ch);
                } else if ch == 47 {
                    assert(r@[85].0 == ch);
                } else if ch == 96 {
                    assert(r@[86].0 == ch);
                } else if ch == 94 {
                    assert(r@[87].0 == ch);
                } else if ch == 124 {
                    assert(r@[88].0 == ch);
                } else if ch == 126 {
                    assert(r@[89].0 == ch);
                } else if ch == 91 {
                    assert(r@[90].0 == ch);
                } else if ch == 93 {
                    assert(r@[91].0 == ch);
                }
            }
        }
        r
    }

    /// The built-in 3×5 font from its glyph sheet: `sheet[k]` is the PNG of image `k`, and
    /// `glyph_image` says which byte each image draws; image 92 is the fallback glyph.
    pub fn load_3x5(sheet: &Vec<Vec<u8>>) -> (r: Result<Font, FlaskError>)
        ensures
            r is Ok <==> sheet@.len() >= GLYPH_SHEET_LEN && image_decodes(sheet@[NULL_GLYPH_IMAGE as int]@)
                && forall|ch: u8| #[trigger] glyph_image(ch) matches Some(k) ==> image_decodes(sheet@[k]@),
            r matches Ok(f) ==> sprite_from_png(sheet@[NULL_GLYPH_IMAGE as int]@, Ok(f.null_glyph())),
            r matches Ok(f) ==> forall|ch: u8| #[trigger] glyph_image(ch) matches Some(k) ==> sprite_from_png(sheet@[k]@, Ok(f.glyph(ch))),
            r matches Ok(f) ==> forall|ch: u8| #[trigger] glyph_image(ch) is None ==> f.glyph(ch) == f.null_glyph(),
            r matches Err(e) ==> (sheet@.len() < GLYPH_SHEET_LEN && e == FlaskError::MissingGlyphImage)
                || exists|k: int| 0 <= k < sheet@.len() && #[trigger] sprite_from_png(sheet@[k]@, Err(e)),
    {
        if sheet.len() < GLYPH_SHEET_LEN {
            return Err(FlaskError::MissingGlyphImage);
        }
        let entries = Self::sheet_entries();
        let mut glyphs: HashMap<u8, Sprite> = HashMap::new();
        let mut i: usize = 0;
        while i < entries.len()
            invariant
                sheet@.len() >= GLYPH_SHEET_LEN,
                i <= entries@.len(),
                forall|j: int| 0 <= j < entries@.len() ==> #[trigger] glyph_image(entries@[j].0) == Some(entries@[j].1 as int),
                forall|j: int| 0 <= j < i ==> glyphs@.contains_key(#[trigger] entries@[j].0),
                forall|j: int| 0 <= j < i ==> image_decodes(sheet@[#[trigger] entries@[j].1 as int]@),
                forall|ch: u8| #[trigger] glyphs@.contains_key(ch) ==> glyph_image(ch) is Some,
                forall|ch: u8| #[trigger] glyphs@.contains_key(ch) ==> sprite_from_png(sheet@[glyph_image(ch)->0]@, Ok(glyphs@[ch])),
            decreases entries@.len() - i,
        {
            let (ch, k) = entries[i];
            match Sprite::from_indexed_8bit_png(sheet[k].as_slice()) {
                Ok(s) => {
                    glyphs.insert(ch, s);
                },
                Err(e) => {
                    proof {
                        assert(!image_decodes(sheet@[k as int]@));
                        assert(glyph_image(ch) == Some(k as int));
                    }
                    return Err(e);
                },
            }
            i = i + 1;
        }
        let null_glyph = match Sprite::from_indexed_8bit_png(sheet[NULL_GLYPH_IMAGE].as_slice()) {
            Ok(s) => s,
            Err(e) => {
                return Err(e);
            },
        };
        proof {
            assert forall|ch: u8| #[trigger] glyph_image(ch) is None implies !glyphs@.contains_key(ch) by {}
            assert forall|ch: u8| #[trigger] glyph_image(ch) is Some implies glyphs@.contains_key(ch) && image_decodes(sheet@[glyph_image(ch)->0]@) by {
                let j = choose|j: int| 0 <= j < entries@.len() && entries@[j].0 == ch;
                assert(glyphs@.contains_key(entries@[j].0));
                assert(image_decodes(sheet@[entries@[j].1 as int]@));
            }
        }
        Ok(Font { null_glyph, glyphs })
    }
}

} // verus!
