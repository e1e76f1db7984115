//! 8x8 bitmaps for the characters the framework draws: the ellipsis a
//! truncated table cell ends with, Braille Patterns drawn from their
//! dot bits, and everything else looked up in the `font8x8` tables. An
//! unmapped codepoint is a hard error, never a silent blank.
use vstd::prelude::*;
#[allow(unused_imports)]
use font8x8::UnicodeFonts;

verus! {

/// A codepoint that none of the checked glyph tables cover.
#[derive(Debug, Clone, Copy, PartialEq, Eq, Structural)]
pub enum GlyphError {
    /// The unmapped character.
    Unmapped(char),
}

/// What `font8x8::BASIC_FONTS.get` returns for `c`.
pub uninterp spec fn basic_font_glyph(c: char) -> Option<Seq<u8>>;

/// What `font8x8::LATIN_FONTS.get` returns for `c`.
pub uninterp spec fn latin_font_glyph(c: char) -> Option<Seq<u8>>;

/// What `font8x8::BLOCK_FONTS.get` returns for `c`.
pub uninterp spec fn block_font_glyph(c: char) -> Option<Seq<u8>>;

/// What `font8x8::BOX_FONTS.get` returns for `c`.
pub uninterp spec fn box_font_glyph(c: char) -> Option<Seq<u8>>;

/// What `font8x8::MISC_FONTS.get` returns for `c`.
pub uninterp spec fn misc_font_glyph(c: char) -> Option<Seq<u8>>;

/// Calls `font8x8::BASIC_FONTS.get(c)` (Basic Latin): the table's
/// bitmap for `c`, if it has one. Claimed: the result is
/// `basic_font_glyph(c)`.
#[verifier::external_body]
fn basic_font(c: char) -> (r: Option<[u8; 8]>)
    ensures
        r matches Some(b) ==> basic_font_glyph(c) == Some(b@),
        r is None ==> basic_font_glyph(c) is None,
{
    font8x8::BASIC_FONTS.get(c)
}

/// Calls `font8x8::LATIN_FONTS.get(c)` (Latin-1 Supplement): the
/// table's bitmap for `c`, if it has one. Claimed: the result is
/// `latin_font_glyph(c)`.
#[verifier::external_body]
fn latin_font(c: char) -> (r: Option<[u8; 8]>)
    ensures
        r matches Some(b) ==> latin_font_glyph(c) == Some(b@),
        r is None ==> latin_font_glyph(c) is None,
{
    font8x8::LATIN_FONTS.get(c)
}

/// Calls `font8x8::BLOCK_FONTS.get(c)` (Block Elements): the table's
/// bitmap for `c`, if it has one. Claimed: the result is
/// `block_font_glyph(c)`.
#[verifier::external_body]
fn block_font(c: char) -> (r: Option<[u8; 8]>)
    ensures
        r matches Some(b) ==> block_font_glyph(c) == Some(b@),
        r is None ==> block_font_glyph(c) is None,
{
    font8x8::BLOCK_FONTS.get(c)
}

/// Calls `font8x8::BOX_FONTS.get(c)` (Box Drawing): the table's bitmap
/// for `c`, if it has one. Claimed: the result is `box_font_glyph(c)`.
#[verifier::external_body]
fn box_font(c: char) -> (r: Option<[u8; 8]>)
    ensures
        r matches Some(b) ==> box_font_glyph(c) == Some(b@),
        r is None ==> box_font_glyph(c) is None,
{
    font8x8::BOX_FONTS.get(c)
}

/// Calls `font8x8::MISC_FONTS.get(c)` (miscellaneous symbols): the
/// table's bitmap for `c`, if it has one. Claimed: the result is
/// `misc_font_glyph(c)`.
#[verifier::external_body]
fn misc_font(c: char) -> (r: Option<[u8; 8]>)
    ensures
        r matches Some(b) ==> misc_font_glyph(c) == Some(b@),
        r is None ==> misc_font_glyph(c) is None,
{
    font8x8::MISC_FONTS.get(c)
}

/// U+2026 HORIZONTAL ELLIPSIS: three dots on the baseline (row 6, at
/// x = 1, 3, 5), every other row blank.
pub open spec fn ellipsis_bitmap() -> Seq<u8> {
    seq![0u8, 0, 0, 0, 0, 0, 0x2a, 0]
}

/// The Braille Patterns dot bits of dot row `dot_row` (0-3), left
/// column then right: rows 0-2 use bits 0-2 (left) and 3-5 (right), row
/// 3 uses bits 6 and 7.
pub open spec fn dot_bits(dot_row: int) -> (u8, u8) {
    if dot_row == 0 {
        (0x01, 0x08)
    } else if dot_row == 1 {
        (0x02, 0x10)
    } else if dot_row == 2 {
        (0x04, 0x20)
    } else {
        (0x40, 0x80)
    }
}

/// One pixel row of dot row `dot_row`: a lit left dot fills pixel
/// columns 0-3 (`0x0F`), a lit right dot columns 4-7 (`0xF0`).
pub open spec fn braille_row(mask: u8, dot_row: int) -> u8 {
    let (left, right) = dot_bits(dot_row);
    ((if mask & left != 0 {
        0x0Fint
    } else {
        0
    }) + (if mask & right != 0 {
        0xF0int
    } else {
        0
    })) as u8
}

/// The bitmap of the Braille pattern whose dots are the bits of `mask`:
/// each dot row is two pixel rows tall.
pub open spec fn braille_bitmap(mask: u8) -> Seq<u8> {
    seq![
        braille_row(mask, 0),
        braille_row(mask, 0),
        braille_row(mask, 1),
        braille_row(mask, 1),
        braille_row(mask, 2),
        braille_row(mask, 2),
        braille_row(mask, 3),
        braille_row(mask, 3),
    ]
}

/// A dot row's pixel row as the OR of its two halves: `0x0F` for a lit
/// left dot, `0xF0` for a lit right dot.
proof fn lemma_braille_row_halves(m: u8, k: int)
    requires
        0 <= k < 4,
    ensures
        braille_row(m, k) == ((if m & dot_bits(k).0 != 0 {
            0x0Fu8
        } else {
            0u8
        }) | (if m & dot_bits(k).1 != 0 {
            0xF0u8
        } else {
            0u8
        })),
{
    assert(0x0Fu8 | 0xF0u8 == 0xFFu8) by (bit_vector);
    assert(0x0Fu8 | 0u8 == 0x0Fu8) by (bit_vector);
    assert(0u8 | 0xF0u8 == 0xF0u8) by (bit_vector);
    assert(0u8 | 0u8 == 0u8) by (bit_vector);
}

proof fn lemma_braille_row_union(a: u8, b: u8, k: int)
    requires
        0 <= k < 4,
    ensures
        braille_row(a | b, k) == braille_row(a, k) | braille_row(b, k),
{
    let (l, r) = dot_bits(k);
    lemma_braille_row_halves(a | b, k);
    lemma_braille_row_halves(a, k);
    lemma_braille_row_halves(b, k);
    assert(((if (a | b) & l != 0 {
        0x0Fu8
    } else {
        0u8
    }) | (if (a | b) & r != 0 {
        0xF0u8
    } else {
        0u8
    })) == (((if a & l != 0 {
        0x0Fu8
    } else {
        0u8
    }) | (if a & r != 0 {
        0xF0u8
    } else {
        0u8
    })) | ((if b & l != 0 {
        0x0Fu8
    } else {
        0u8
    }) | (if b & r != 0 {
        0xF0u8
    } else {
        0u8
    })))) by (bit_vector);
}

proof fn lemma_braille_row_bits(a: u8, b: u8, k: int)
    requires
        0 <= k < 4,
        braille_row(a, k) == braille_row(b, k),
    ensures
        (a & dot_bits(k).0 != 0) == (b & dot_bits(k).0 != 0),
        (a & dot_bits(k).1 != 0) == (b & dot_bits(k).1 != 0),
{
    let (l, r) = dot_bits(k);
    lemma_braille_row_halves(a, k);
    lemma_braille_row_halves(b, k);
    let (la, ra, lb, rb) = (a & l != 0, a & r != 0, b & l != 0, b & r != 0);
    assert(((if la {
        0x0Fu8
    } else {
        0u8
    }) | (if ra {
        0xF0u8
    } else {
        0u8
    })) == ((if lb {
        0x0Fu8
    } else {
        0u8
    }) | (if rb {
        0xF0u8
    } else {
        0u8
    })) ==> la == lb && ra == rb) by (bit_vector);
}

/// Law: Braille bitmaps compose by dots — the pattern of the union of
/// two dot sets is the pixel-wise OR of their bitmaps, and the empty
/// pattern is blank.
pub proof fn lemma_braille_compose(a: u8, b: u8)
    ensures
        forall|row: int|
            0 <= row < 8 ==> #[trigger] braille_bitmap(a | b)[row] == braille_bitmap(a)[row]
                | braille_bitmap(b)[row],
        braille_bitmap(0) == seq![0u8, 0u8, 0u8, 0u8, 0u8, 0u8, 0u8, 0u8],
{
    lemma_braille_row_union(a, b, 0);
    lemma_braille_row_union(a, b, 1);
    lemma_braille_row_union(a, b, 2);
    lemma_braille_row_union(a, b, 3);
    lemma_braille_row_halves(0, 0);
    lemma_braille_row_halves(0, 1);
    lemma_braille_row_halves(0, 2);
    lemma_braille_row_halves(0, 3);
    assert(0u8 & 0x01u8 == 0 && 0u8 & 0x08u8 == 0 && 0u8 & 0x02u8 == 0 && 0u8 & 0x10u8 == 0
        && 0u8 & 0x04u8 == 0 && 0u8 & 0x20u8 == 0 && 0u8 & 0x40u8 == 0 && 0u8 & 0x80u8 == 0)
        by (bit_vector);
    assert(0u8 | 0u8 == 0u8) by (bit_vector);
    assert(braille_bitmap(0) =~= seq![0u8, 0u8, 0u8, 0u8, 0u8, 0u8, 0u8, 0u8]);
}

/// Law: distinct dot patterns have distinct Braille bitmaps.
pub proof fn lemma_braille_distinct(a: u8, b: u8)
    requires
        a != b,
    ensures
        braille_bitmap(a) != braille_bitmap(b),
{
    assert(((a & 0x01u8 != 0) == (b & 0x01u8 != 0) && (a & 0x08u8 != 0) == (b & 0x08u8 != 0) && (a
        & 0x02u8 != 0) == (b & 0x02u8 != 0) && (a & 0x10u8 != 0) == (b & 0x10u8 != 0) && (a & 0x04u8
        != 0) == (b & 0x04u8 != 0) && (a & 0x20u8 != 0) == (b & 0x20u8 != 0) && (a & 0x40u8 != 0)
        == (b & 0x40u8 != 0) && (a & 0x80u8 != 0) == (b & 0x80u8 != 0)) ==> a == b) by (bit_vector);
    if braille_bitmap(a) == braille_bitmap(b) {
        assert(braille_bitmap(a)[0] == braille_bitmap(b)[0]);
        assert(braille_bitmap(a)[2] == braille_bitmap(b)[2]);
        assert(braille_bitmap(a)[4] == braille_bitmap(b)[4]);
        assert(braille_bitmap(a)[6] == braille_bitmap(b)[6]);
        lemma_braille_row_bits(a, b, 0);
        lemma_braille_row_bits(a, b, 1);
        lemma_braille_row_bits(a, b, 2);
        lemma_braille_row_bits(a, b, 3);
    }
}

/// Which bit of a Braille pattern's mask lights dot row `dot_row`'s
/// left dot, or its right dot when `right`: rows 0-2 use bits 0-2 (left)
/// and 3-5 (right), row 3 uses bits 6 and 7.
pub open spec fn dot_bit(dot_row: int, right: bool) -> u8 {
    if dot_row == 3 {
        if right {
            7
        } else {
            6
        }
    } else if right {
        (dot_row + 3) as u8
    } else {
        dot_row as u8
    }
}

proof fn lemma_bitmap_row(m: u8, r: int)
    requires
        0 <= r < 8,
    ensures
        braille_bitmap(m)[r] == braille_row(m, r / 2),
{
    if r == 0 {
    } else if r == 1 {
    } else if r == 2 {
    } else if r == 3 {
    } else if r == 4 {
    } else if r == 5 {
    } else if r == 6 {
    } else {
    }
}

proof fn lemma_braille_row_pixel(m: u8, k: int, c: u8)
    requires
        0 <= k < 4,
        c < 8,
    ensures
        (braille_row(m, k) >> c) & 1u8 == (m >> dot_bit(k, c >= 4)) & 1u8,
{
    lemma_braille_row_halves(m, k);
    if k == 0 {
        assert((((if m & 0x01u8 != 0 {
            0x0Fu8
        } else {
            0u8
        }) | (if m & 0x08u8 != 0 {
            0xF0u8
        } else {
            0u8
        })) >> c) & 1u8 == (m >> (if c < 4 {
            0u8
        } else {
            3u8
        })) & 1u8) by (bit_vector)
            requires
                c < 8,
        ;
    } else if k == 1 {
        assert((((if m & 0x02u8 != 0 {
            0x0Fu8
        } else {
            0u8
        }) | (if m & 0x10u8 != 0 {
            0xF0u8
        } else {
            0u8
        })) >> c) & 1u8 == (m >> (if c < 4 {
            1u8
        } else {
            4u8
        })) & 1u8) by (bit_vector)
            requires
                c < 8,
        ;
    } else if k == 2 {
        assert((((if m & 0x04u8 != 0 {
            0x0Fu8
        } else {
            0u8
        }) | (if m & 0x20u8 != 0 {
            0xF0u8
        } else {
            0u8
        })) >> c) & 1u8 == (m >> (if c < 4 {
            2u8
        } else {
            5u8
        })) & 1u8) by (bit_vector)
            requires
                c < 8,
        ;
    } else {
        assert((((if m & 0x40u8 != 0 {
            0x0Fu8
        } else {
            0u8
        }) | (if m & 0x80u8 != 0 {
            0xF0u8
        } else {
            0u8
        })) >> c) & 1u8 == (m >> (if c < 4 {
            6u8
        } else {
            7u8
        })) & 1u8) by (bit_vector)
            requires
                c < 8,
        ;
    }
}

/// Law: each dot of a Braille pattern is a block of pixels two rows tall
/// and four columns wide — pixel (`c`, `r`) of the bitmap is lit exactly
/// when the mask bit of the dot over it is set.
pub proof fn lemma_braille_pixels(m: u8)
    ensures
        forall|r: int, c: u8|
            0 <= r < 8 && c < 8 ==> #[trigger] (braille_bitmap(m)[r] >> c) & 1u8 == (m >> dot_bit(
                r / 2,
                c >= 4,
            )) & 1u8,
{
    assert forall|r: int, c: u8| 0 <= r < 8 && c < 8 implies #[trigger] (braille_bitmap(m)[r] >> c)
        & 1u8 == (m >> dot_bit(r / 2, c >= 4)) & 1u8 by {
        lemma_bitmap_row(m, r);
        lemma_braille_row_pixel(m, r / 2, c);
    }
}

/// `ch` is in the Braille Patterns block, U+2800-U+28FF.
pub open spec fn is_braille(ch: char) -> bool {
    0x2800 <= (ch as u32) <= 0x28FF
}

/// The bitmap for `ch`: the ellipsis, a Braille pattern, or the first of
/// the Basic Latin, Latin-1, Block Elements, Box Drawing and
/// miscellaneous tables that has it; `None` when none does.
pub open spec fn glyph(ch: char) -> Option<Seq<u8>> {
    if ch == '\u{2026}' {
        Some(ellipsis_bitmap())
    } else if is_braille(ch) {
        Some(braille_bitmap(((ch as u32) - 0x2800) as u8))
    } else if basic_font_glyph(ch) is Some {
        basic_font_glyph(ch)
    } else if latin_font_glyph(ch) is Some {
        latin_font_glyph(ch)
    } else if block_font_glyph(ch) is Some {
        block_font_glyph(ch)
    } else if box_font_glyph(ch) is Some {
        box_font_glyph(ch)
    } else {
        misc_font_glyph(ch)
    }
}

fn braille_row_exec(mask: u8, left: u8, right: u8) -> (r: u8)
    ensures
        r == ((if mask & left != 0 {
            0x0Fint
        } else {
            0
        }) + (if mask & right != 0 {
            0xF0int
        } else {
            0
        })) as u8,
{
    let l: u8 = if mask & left != 0 {
        0x0F
    } else {
        0
    };
    let r: u8 = if mask & right != 0 {
        0xF0
    } else {
        0
    };
    l + r
}

/// Renders a Braille Patterns codepoint as an 8x8 bitmap, each of its
/// dots a 4x2-pixel block; `None` outside the block.
pub fn braille_glyph_for(ch: char) -> (r: Option<[u8; 8]>)
    ensures
        is_braille(ch) ==> (r matches Some(b) && b@ == braille_bitmap(((ch as u32) - 0x2800) as u8)),
        !is_braille(ch) ==> r is None,
{
    let cp = ch as u32;
    if cp < 0x2800 || cp > 0x28FF {
        return None;
    }
    let mask = (cp - 0x2800) as u8;
    let r0 = braille_row_exec(mask, 0x01, 0x08);
    let r1 = braille_row_exec(mask, 0x02, 0x10);
    let r2 = braille_row_exec(mask, 0x04, 0x20);
    let r3 = braille_row_exec(mask, 0x40, 0x80);
    let bitmap: [u8; 8] = [r0, r0, r1, r1, r2, r2, r3, r3];
    assert(bitmap@ =~= braille_bitmap(mask));
    Some(bitmap)
}

/// Looks up `ch`'s 8x8 bitmap: the ellipsis, a Braille pattern, or the
/// font tables in turn; an error naming `ch` when nothing covers it.
pub fn glyph_for(ch: char) -> (r: Result<[u8; 8], GlyphError>)
    ensures
        r matches Ok(b) ==> glyph(ch) == Some(b@),
        r matches Err(e) ==> glyph(ch) is None && e == GlyphError::Unmapped(ch),
{
    if ch == '\u{2026}' {
        let b: [u8; 8] = [0, 0, 0, 0, 0, 0, 0x2a, 0];
        assert(b@ =~= ellipsis_bitmap());
        return Ok(b);
    }
    if let Some(b) = braille_glyph_for(ch) {
        return Ok(b);
    }
    if let Some(b) = basic_font(ch) {
        return Ok(b);
    }
    if let Some(b) = latin_font(ch) {
        return Ok(b);
    }
    if let Some(b) = block_font(ch) {
        return Ok(b);
    }
    if let Some(b) = box_font(ch) {
        return Ok(b);
    }
    if let Some(b) = misc_font(ch) {
        return Ok(b);
    }
    Err(GlyphError::Unmapped(ch))
}

} // verus!
