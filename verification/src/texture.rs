//! The embedded indexed-colour resource codecs: pictures (qpic),
//! mip-mapped textures, bitmap fonts, and the palettes they share.
//!
//! Every codec decodes one record from the start of a byte slice; the
//! contracts state, byte for byte, where each decoded field comes from.

use vstd::prelude::*;
use vstd::utf8::{decode_utf8, valid_utf8};
use crate::error::DecodeError;
use crate::name::{cstr16, name_bytes, CStr16};
use crate::source::{le_u16_at, le_u32_at, Source};

verus! {

/// Number of mip levels in a mip-mapped texture.
pub const MIP_LEVELS: usize = 4;

/// RGB colour as three bytes (red, green, blue).
pub type Rgb = [u8; 3];

/// Indexed colour data: one index buffer per mip level (a single
/// buffer for pictures and fonts) and the palette the indices point
/// into.
#[derive(Debug, Clone, PartialEq)]
pub struct ColorData<const N: usize> {
    /// Indexed pixel data for each mip level.
    pub indices: [Vec<u8>; N],
    /// Palette mapping indices to RGB colours.
    pub palette: Vec<Rgb>,
}

/// A single-level indexed picture (qpic).
#[derive(Debug, Clone, PartialEq)]
pub struct Picture {
    /// Width in pixels.
    pub width: u32,
    /// Height in pixels.
    pub height: u32,
    /// Pixel indices and palette.
    pub data: ColorData<1>,
}

/// How a palette's entry count is chosen.
///
/// The formats carry a 16-bit count field in front of every palette,
/// but the canonical codecs ignore it and always read 256 entries;
/// a historical variant instead trusts the field, capped at 256.
#[derive(Debug, Clone, Copy, PartialEq, Eq, Structural)]
pub enum PaletteSizing {
    /// Ignore the count field and read exactly 256 entries.
    Fixed,
    /// Read as many entries as the count field says, capped at 256.
    FromCount,
}

/// The RGB triple stored at `b[pos .. pos + 3]`.
pub open spec fn rgb_at(b: Seq<u8>, pos: int) -> Rgb {
    [b[pos], b[pos + 1], b[pos + 2]]
}

/// The `n` RGB triples stored at `b[pos .. pos + 3*n]`.
pub open spec fn spec_palette(b: Seq<u8>, pos: int, n: int) -> Seq<Rgb> {
    Seq::new(n as nat, |i: int| rgb_at(b, pos + 3 * i))
}

/// How many entries a palette whose count field stands at `pos` has.
pub open spec fn palette_len(b: Seq<u8>, pos: int, sizing: PaletteSizing) -> int {
    match sizing {
        PaletteSizing::Fixed => 256,
        PaletteSizing::FromCount => if le_u16_at(b, pos) < 256 {
            le_u16_at(b, pos) as int
        } else {
            256
        },
    }
}

/// Read a palette at the cursor: a 16-bit count field followed by the
/// colour table, sized as `sizing` says.
pub fn read_palette(src: &mut Source, sizing: PaletteSizing) -> (r: Result<
    Vec<Rgb>,
    DecodeError,
>)
    requires
        old(src).wf(),
    ensures
        final(src).wf(),
        final(src).bytes() == old(src).bytes(),
        r is Ok <==> old(src).at() + 2 + 3 * palette_len(old(src).bytes(), old(src).at(), sizing)
            <= old(src).bytes().len(),
        r matches Ok(p) ==> final(src).at() == old(src).at() + 2 + 3 * palette_len(
            old(src).bytes(),
            old(src).at(),
            sizing,
        ) && p@ == spec_palette(
            old(src).bytes(),
            old(src).at() + 2,
            palette_len(old(src).bytes(), old(src).at(), sizing),
        ),
        r is Err ==> r == Err::<Vec<Rgb>, DecodeError>(DecodeError::UnexpectedEnd),
{
    let ghost b = src.bytes();
    let ghost p0 = src.at();
    let count = match src.read_u16() {
        Ok(c) => c,
        Err(e) => {
            proof {
                // too short even for the count field, so too short for the whole palette
                assert(palette_len(b, p0, sizing) >= 0);
            }
            return Err(e);
        },
    };
    let n: usize = match sizing {
        PaletteSizing::Fixed => 256,
        PaletteSizing::FromCount => if count < 256 {
            count as usize
        } else {
            256
        },
    };
    assert(n == palette_len(b, p0, sizing));
    if src.remaining() < 3 * n {
        return Err(DecodeError::UnexpectedEnd);
    }
    let mut pal: Vec<Rgb> = Vec::new();
    let mut e: usize = 0;
    while e < n
        invariant
            src.wf(),
            src.bytes() == b,
            src.at() == p0 + 2 + 3 * e,
            0 <= e <= n,
            p0 + 2 + 3 * n <= b.len(),
            pal@ == spec_palette(b, p0 + 2, e as int),
        decreases n - e,
    {
        let b0 = match src.read_u8() {
            Ok(x) => x,
            Err(_) => {
                return Err(DecodeError::UnexpectedEnd);
            },
        };
        let b1 = match src.read_u8() {
            Ok(x) => x,
            Err(_) => {
                return Err(DecodeError::UnexpectedEnd);
            },
        };
        let b2 = match src.read_u8() {
            Ok(x) => x,
            Err(_) => {
                return Err(DecodeError::UnexpectedEnd);
            },
        };
        pal.push([b0, b1, b2]);
        e = e + 1;
        proof {
            assert(rgb_at(b, p0 + 2 + 3 * (e - 1)) =~= [b0, b1, b2]);
            assert(pal@ =~= spec_palette(b, p0 + 2, e as int));
        }
    }
    Ok(pal)
}

/// Width field of a qpic record.
pub open spec fn qpic_w(b: Seq<u8>) -> u32 {
    le_u32_at(b, 0)
}

/// Height field of a qpic record.
pub open spec fn qpic_h(b: Seq<u8>) -> u32 {
    le_u32_at(b, 4)
}

/// Pixel count of a qpic record: width times height.
pub open spec fn qpic_pixels(b: Seq<u8>) -> int {
    qpic_w(b) * qpic_h(b)
}

/// A qpic record decodes successfully exactly when the buffer holds
/// the 8-byte header, the pixel buffer, the 16-bit palette count field
/// and the 768-byte palette.
pub open spec fn qpic_ok(b: Seq<u8>) -> bool {
    b.len() >= 8 + qpic_pixels(b) + 2 + 768
}

/// `p` is the picture decoded from record `b`.
pub open spec fn picture_decoded(b: Seq<u8>, p: Picture) -> bool {
    &&& p.width == qpic_w(b)
    &&& p.height == qpic_h(b)
    &&& p.data.indices@.len() == 1
    &&& p.data.indices@[0]@ == b.subrange(8, 8 + qpic_pixels(b))
    &&& p.data.palette@ == spec_palette(b, 8 + qpic_pixels(b) + 2, 256)
}

/// Decode a single-level picture (qpic) from the start of `data`:
/// 32-bit width and height, `width*height` pixel indices, and a
/// 256-entry palette behind its count field.
pub fn qpic(data: &[u8]) -> (r: Result<Picture, DecodeError>)
    ensures
        r is Ok <==> qpic_ok(data@),
        r matches Ok(p) ==> picture_decoded(data@, p),
        r is Err ==> r == Err::<Picture, DecodeError>(DecodeError::UnexpectedEnd),
{
    let mut src = Source::new(data);
    let width = match src.read_u32() {
        Ok(v) => v,
        Err(e) => {
            return Err(e);
        },
    };
    let height = match src.read_u32() {
        Ok(v) => v,
        Err(e) => {
            return Err(e);
        },
    };
    proof {
        vstd::arithmetic::mul::lemma_mul_upper_bound(
            width as int,
            0xffff_ffff,
            height as int,
            0xffff_ffff,
        );
    }
    let pixels: u64 = (width as u64) * (height as u64);
    let rem = src.remaining();
    if pixels > rem as u64 {
        return Err(DecodeError::UnexpectedEnd);
    }
    let indices = match src.take(pixels as usize) {
        Ok(v) => v,
        Err(e) => {
            return Err(e);
        },
    };
    let palette = match read_palette(&mut src, PaletteSizing::Fixed) {
        Ok(p) => p,
        Err(e) => {
            return Err(e);
        },
    };
    Ok(Picture { width, height, data: ColorData { indices: [indices], palette } })
}

/// A mip-mapped texture: a name, its dimensions, and (for textures
/// that carry pixel data) four mip levels of indices plus a palette.
#[derive(Debug, Clone, PartialEq)]
pub struct MipTexture {
    /// Texture name (16-byte NUL-padded field).
    pub name: CStr16,
    /// Width in pixels.
    pub width: u32,
    /// Height in pixels.
    pub height: u32,
    /// Pixel data for the four mip levels, present exactly when all
    /// four mip offsets in the record are non-zero.
    pub data: Option<ColorData<MIP_LEVELS>>,
}

/// Width field of a mip-texture record.
pub open spec fn miptex_w(b: Seq<u8>) -> u32 {
    le_u32_at(b, 16)
}

/// Height field of a mip-texture record.
pub open spec fn miptex_h(b: Seq<u8>) -> u32 {
    le_u32_at(b, 20)
}

/// Mip level `k`'s offset field, relative to the record's start.
pub open spec fn mip_off(b: Seq<u8>, k: int) -> u32 {
    le_u32_at(b, 24 + 4 * k)
}

/// A mip-texture record carries pixel data exactly when all four mip
/// offsets are non-zero.
pub open spec fn miptex_has_data(b: Seq<u8>) -> bool {
    mip_off(b, 0) != 0 && mip_off(b, 1) != 0 && mip_off(b, 2) != 0 && mip_off(b, 3) != 0
}

/// Byte length of mip level `k`'s index buffer:
/// `width*height / 4^k`.
pub open spec fn mip_len(b: Seq<u8>, k: int) -> int {
    (miptex_w(b) * miptex_h(b)) / (if k == 0 {
        1
    } else if k == 1 {
        4
    } else if k == 2 {
        16
    } else {
        64
    })
}

/// Where the palette's 16-bit count field stands in a mip-texture
/// record with pixel data: immediately after mip level 3's data.
pub open spec fn miptex_trailer(b: Seq<u8>) -> int {
    mip_off(b, 3) + mip_len(b, 3)
}

/// A mip-texture record decodes successfully exactly when its 40-byte
/// header is present with a valid UTF-8 name and, if it carries pixel
/// data, every mip level's index buffer and the palette behind the
/// 2-byte trailer lie inside the record.
pub open spec fn miptex_ok(b: Seq<u8>) -> bool {
    &&& b.len() >= 40
    &&& valid_utf8(name_bytes(b, 0, false))
    &&& (miptex_has_data(b) ==> {
        &&& mip_off(b, 0) + mip_len(b, 0) <= b.len()
        &&& mip_off(b, 1) + mip_len(b, 1) <= b.len()
        &&& mip_off(b, 2) + mip_len(b, 2) <= b.len()
        &&& miptex_trailer(b) + 2 + 768 <= b.len()
    })
}

/// The error a failing mip-texture decode reports: an unreadable name
/// field is a format violation, everything else is truncation.
pub open spec fn miptex_err(b: Seq<u8>) -> DecodeError {
    if b.len() >= 16 && !valid_utf8(name_bytes(b, 0, false)) {
        DecodeError::InvalidName
    } else {
        DecodeError::UnexpectedEnd
    }
}

/// `m` is the mip texture decoded from record `b`.
pub open spec fn miptex_decoded(b: Seq<u8>, m: MipTexture) -> bool {
    &&& m.name@ == decode_utf8(name_bytes(b, 0, false))
    &&& m.width == miptex_w(b)
    &&& m.height == miptex_h(b)
    &&& (m.data is Some <==> miptex_has_data(b))
    &&& (m.data matches Some(cd) ==> {
        &&& cd.indices@.len() == 4
        &&& cd.indices@[0]@ == b.subrange(mip_off(b, 0) as int, mip_off(b, 0) + mip_len(b, 0))
        &&& cd.indices@[1]@ == b.subrange(mip_off(b, 1) as int, mip_off(b, 1) + mip_len(b, 1))
        &&& cd.indices@[2]@ == b.subrange(mip_off(b, 2) as int, mip_off(b, 2) + mip_len(b, 2))
        &&& cd.indices@[3]@ == b.subrange(mip_off(b, 3) as int, mip_off(b, 3) + mip_len(b, 3))
        &&& cd.palette@ == spec_palette(b, miptex_trailer(b) + 2, 256)
    })
}

/// Decode a mip-texture record from the start of `data`: a 16-byte
/// name, 32-bit width and height, four mip-level offsets relative to
/// the record's start, and — when all four offsets are non-zero — the
/// four index buffers plus the 256-entry palette that follows mip
/// level 3's data and its 2-byte count field.
pub fn miptex(data: &[u8]) -> (r: Result<MipTexture, DecodeError>)
    ensures
        r is Ok <==> miptex_ok(data@),
        r matches Ok(m) ==> miptex_decoded(data@, m),
        r is Err ==> r == Err::<MipTexture, DecodeError>(miptex_err(data@)),
{
    let mut src = Source::new(data);
    let name = match cstr16(&mut src, false) {
        Ok(n) => n,
        Err(e) => {
            return Err(e);
        },
    };
    let width = match src.read_u32() {
        Ok(v) => v,
        Err(e) => {
            return Err(e);
        },
    };
    let height = match src.read_u32() {
        Ok(v) => v,
        Err(e) => {
            return Err(e);
        },
    };
    let off0 = match src.read_u32() {
        Ok(v) => v,
        Err(e) => {
            return Err(e);
        },
    };
    let off1 = match src.read_u32() {
        Ok(v) => v,
        Err(e) => {
            return Err(e);
        },
    };
    let off2 = match src.read_u32() {
        Ok(v) => v,
        Err(e) => {
            return Err(e);
        },
    };
    let off3 = match src.read_u32() {
        Ok(v) => v,
        Err(e) => {
            return Err(e);
        },
    };
    if off0 == 0 || off1 == 0 || off2 == 0 || off3 == 0 {
        return Ok(MipTexture { name, width, height, data: None });
    }
    proof {
        vstd::arithmetic::mul::lemma_mul_upper_bound(
            width as int,
            0xffff_ffff,
            height as int,
            0xffff_ffff,
        );
    }
    let pixels: u64 = (width as u64) * (height as u64);
    let len64: u64 = data.len() as u64;
    let sz0: u64 = pixels;
    let sz1: u64 = pixels / 4;
    let sz2: u64 = pixels / 16;
    let sz3: u64 = pixels / 64;
    if (off0 as u64) + sz0 > len64 || (off1 as u64) + sz1 > len64 || (off2 as u64) + sz2 > len64
        || (off3 as u64) + sz3 + 2 + 768 > len64 {
        return Err(DecodeError::UnexpectedEnd);
    }
    let i0 = match read_mip(&mut src, off0, sz0 as usize) {
        Ok(v) => v,
        Err(e) => {
            return Err(e);
        },
    };
    let i1 = match read_mip(&mut src, off1, sz1 as usize) {
        Ok(v) => v,
        Err(e) => {
            return Err(e);
        },
    };
    let i2 = match read_mip(&mut src, off2, sz2 as usize) {
        Ok(v) => v,
        Err(e) => {
            return Err(e);
        },
    };
    let i3 = match read_mip(&mut src, off3, sz3 as usize) {
        Ok(v) => v,
        Err(e) => {
            return Err(e);
        },
    };
    let palette = match read_palette(&mut src, PaletteSizing::Fixed) {
        Ok(p) => p,
        Err(e) => {
            return Err(e);
        },
    };
    Ok(
        MipTexture {
            name,
            width,
            height,
            data: Some(ColorData { indices: [i0, i1, i2, i3], palette }),
        },
    )
}

/// Position and width of one glyph in a bitmap font.
#[derive(Debug, Clone, Copy, PartialEq, Eq, Structural)]
pub struct CharInfo {
    /// Offset in the font's pixel buffer where the glyph starts.
    pub offset: u16,
    /// Width of the glyph in pixels.
    pub width: u16,
}

/// A bitmap font: dimensions, 256 glyph descriptors, and one indexed
/// pixel buffer with its palette.
#[derive(Debug, Clone, PartialEq)]
pub struct Font {
    /// Effective width of the pixel buffer in pixels (see [`font_width`]).
    pub width: u32,
    /// Height of the pixel buffer in pixels.
    pub height: u32,
    /// Number of character rows.
    pub row_count: u32,
    /// Height of each character row in pixels.
    pub row_height: u32,
    /// The 256 glyph descriptors.
    pub chars_info: Vec<CharInfo>,
    /// Pixel indices and palette.
    pub data: ColorData<1>,
}

/// The stored (unreliable) width field of a font record.
pub open spec fn font_stored_w(b: Seq<u8>) -> u32 {
    le_u32_at(b, 0)
}

/// Height field of a font record.
pub open spec fn font_h(b: Seq<u8>) -> u32 {
    le_u32_at(b, 4)
}

/// Row-count field of a font record.
pub open spec fn font_rows(b: Seq<u8>) -> u32 {
    le_u32_at(b, 8)
}

/// Row-height field of a font record.
pub open spec fn font_row_h(b: Seq<u8>) -> u32 {
    le_u32_at(b, 12)
}

/// The glyph descriptor stored at `b[pos .. pos + 4]`.
pub open spec fn spec_char_info(b: Seq<u8>, pos: int) -> CharInfo {
    CharInfo { offset: le_u16_at(b, pos), width: le_u16_at(b, pos + 2) }
}

/// True when the bytes remaining after the font's header and glyph
/// table exactly match the pixel-buffer size the stored width field
/// predicts (plus the 2-byte trailer, the 768-byte palette, and 64
/// slack bytes). Only then is the stored width trusted.
pub open spec fn font_matched(b: Seq<u8>) -> bool {
    b.len() - 1040 == font_h(b) * font_stored_w(b) * 16 + 2 + 768 + 64
}

/// The effective pixel-buffer width: `stored_width * 16` when the
/// remaining byte count matches (truncated to 32 bits), and the fixed
/// fallback 256 otherwise.
pub open spec fn font_width(b: Seq<u8>) -> u32 {
    if font_matched(b) {
        (font_stored_w(b) * 16) as u32
    } else {
        256
    }
}

/// Pixel count of a font record: effective width times height.
pub open spec fn font_pixels(b: Seq<u8>) -> int {
    font_width(b) * font_h(b)
}

/// A font record decodes successfully exactly when the buffer holds
/// the 16-byte header, the 1024-byte glyph table, the pixel buffer,
/// the 16-bit trailer and the 768-byte palette.
pub open spec fn font_ok(b: Seq<u8>) -> bool {
    b.len() >= 1040 && 1040 + font_pixels(b) + 2 + 768 <= b.len()
}

/// `f` is the font decoded from record `b`.
pub open spec fn font_decoded(b: Seq<u8>, f: Font) -> bool {
    &&& f.width == font_width(b)
    &&& f.height == font_h(b)
    &&& f.row_count == font_rows(b)
    &&& f.row_height == font_row_h(b)
    &&& f.chars_info@ == Seq::new(256, |i: int| spec_char_info(b, 16 + 4 * i))
    &&& f.data.indices@.len() == 1
    &&& f.data.indices@[0]@ == b.subrange(1040, 1040 + font_pixels(b))
    &&& f.data.palette@ == spec_palette(b, 1040 + font_pixels(b) + 2, 256)
}

/// Decode a bitmap-font record from the start of `data`: four 32-bit
/// header fields, 256 glyph descriptors, then — under the effective
/// width resolved by [`font_width`] — the pixel buffer, a 16-bit
/// trailer and the 256-entry palette.
pub fn font(data: &[u8]) -> (r: Result<Font, DecodeError>)
    ensures
        r is Ok <==> font_ok(data@),
        r matches Ok(f) ==> font_decoded(data@, f),
        r is Err ==> r == Err::<Font, DecodeError>(DecodeError::UnexpectedEnd),
{
    let ghost b = data@;
    let mut src = Source::new(data);
    let stored_w = match src.read_u32() {
        Ok(v) => v,
        Err(e) => {
            return Err(e);
        },
    };
    let height = match src.read_u32() {
        Ok(v) => v,
        Err(e) => {
            return Err(e);
        },
    };
    let row_count = match src.read_u32() {
        Ok(v) => v,
        Err(e) => {
            return Err(e);
        },
    };
    let row_height = match src.read_u32() {
        Ok(v) => v,
        Err(e) => {
            return Err(e);
        },
    };
    if data.len() < 1040 {
        return Err(DecodeError::UnexpectedEnd);
    }
    let mut chars_info: Vec<CharInfo> = Vec::new();
    let mut g: usize = 0;
    while g < 256
        invariant
            src.wf(),
            src.bytes() == b,
            b.len() >= 1040,
            src.at() == 16 + 4 * g,
            0 <= g <= 256,
            chars_info@ == Seq::new(g as nat, |i: int| spec_char_info(b, 16 + 4 * i)),
        decreases 256 - g,
    {
        let off = match src.read_u16() {
            Ok(v) => v,
            Err(_) => {
                return Err(DecodeError::UnexpectedEnd);
            },
        };
        let w = match src.read_u16() {
            Ok(v) => v,
            Err(_) => {
                return Err(DecodeError::UnexpectedEnd);
            },
        };
        chars_info.push(CharInfo { offset: off, width: w });
        g = g + 1;
        proof {
            assert(chars_info@ =~= Seq::new(g as nat, |i: int| spec_char_info(b, 16 + 4 * i)));
        }
    }
    // resolve the effective width against the remaining byte count
    proof {
        vstd::arithmetic::mul::lemma_mul_upper_bound(
            height as int,
            0xffff_ffff,
            stored_w as int,
            0xffff_ffff,
        );
    }
    let rem64: u64 = (data.len() - 1040) as u64;
    let hw: u64 = (height as u64) * (stored_w as u64);
    let matched: bool = rem64 >= 834 && (rem64 - 834) % 16 == 0 && (rem64 - 834) / 16 == hw;
    proof {
        assert(matched == font_matched(b)) by {
            vstd::arithmetic::div_mod::lemma_fundamental_div_mod(rem64 - 834, 16);
            assert((font_h(b) * font_stored_w(b)) * 16 == font_h(b) * font_stored_w(b) * 16)
                by (nonlinear_arith);
        }
    }
    let width: u32 = if matched {
        #[verifier::truncate] ((stored_w as u64 * 16) as u32)
    } else {
        256
    };
    assert(width == font_width(b));
    proof {
        vstd::arithmetic::mul::lemma_mul_upper_bound(
            width as int,
            0xffff_ffff,
            height as int,
            0xffff_ffff,
        );
    }
    let pixels: u64 = (width as u64) * (height as u64);
    let rem = src.remaining();
    if pixels > rem as u64 {
        return Err(DecodeError::UnexpectedEnd);
    }
    let indices = match src.take(pixels as usize) {
        Ok(v) => v,
        Err(e) => {
            return Err(e);
        },
    };
    let palette = match read_palette(&mut src, PaletteSizing::Fixed) {
        Ok(p) => p,
        Err(e) => {
            return Err(e);
        },
    };
    Ok(
        Font {
            width,
            height,
            row_count,
            row_height,
            chars_info,
            data: ColorData { indices: [indices], palette },
        },
    )
}

/// `x` and `y` hold the same pixels: the same number of index
/// buffers, with the same bytes, and the same palette.
pub open spec fn color_data_eq<const N: usize>(x: ColorData<N>, y: ColorData<N>) -> bool {
    &&& x.indices@.len() == y.indices@.len()
    &&& (forall|k: int| 0 <= k < x.indices@.len() ==> (#[trigger] x.indices@[k])@ == y.indices@[k]@)
    &&& x.palette@ == y.palette@
}

/// `x` and `y` are the same picture, field for field.
pub open spec fn picture_eq(x: Picture, y: Picture) -> bool {
    x.width == y.width && x.height == y.height && color_data_eq(x.data, y.data)
}

/// `x` and `y` are the same mip texture, field for field.
pub open spec fn miptex_eq(x: MipTexture, y: MipTexture) -> bool {
    &&& x.name@ == y.name@
    &&& x.width == y.width
    &&& x.height == y.height
    &&& (x.data is Some <==> y.data is Some)
    &&& (x.data matches Some(cx) ==> y.data matches Some(cy) ==> color_data_eq(cx, cy))
}

/// `x` and `y` are the same font, field for field.
pub open spec fn font_eq(x: Font, y: Font) -> bool {
    &&& x.width == y.width
    &&& x.height == y.height
    &&& x.row_count == y.row_count
    &&& x.row_height == y.row_height
    &&& x.chars_info@ == y.chars_info@
    &&& color_data_eq(x.data, y.data)
}

/// One byte record has one decode: two pictures decoded from the same
/// bytes are the same picture.
pub proof fn lemma_picture_decode_unique(b: Seq<u8>, x: Picture, y: Picture)
    requires
        picture_decoded(b, x),
        picture_decoded(b, y),
    ensures
        picture_eq(x, y),
{
}

/// Two mip textures decoded from the same bytes are the same texture.
pub proof fn lemma_miptex_decode_unique(b: Seq<u8>, x: MipTexture, y: MipTexture)
    requires
        miptex_decoded(b, x),
        miptex_decoded(b, y),
    ensures
        miptex_eq(x, y),
{
}

/// Two fonts decoded from the same bytes are the same font.
pub proof fn lemma_font_decode_unique(b: Seq<u8>, x: Font, y: Font)
    requires
        font_decoded(b, x),
        font_decoded(b, y),
    ensures
        font_eq(x, y),
{
}

/// For a mip texture that carries pixel data, mip level `k`'s index
/// buffer holds exactly `width*height / 4^k` bytes, and the palette is
/// exactly 256 three-byte entries read immediately after the 2-byte
/// count field that follows mip level 3's data.
pub proof fn lemma_mip_level_sizes(b: Seq<u8>, m: MipTexture, k: int)
    requires
        miptex_ok(b),
        miptex_decoded(b, m),
        m.data is Some,
        0 <= k < 4,
    ensures
        m.data matches Some(cd) ==> cd.indices@[k]@.len() == (m.width * m.height) / (if k == 0 {
            1
        } else if k == 1 {
            4
        } else if k == 2 {
            16
        } else {
            64
        }),
        m.data matches Some(cd) ==> cd.palette@ == spec_palette(b, miptex_trailer(b) + 2, 256)
            && cd.palette@.len() == 256,
{
}

/// A mip texture with any zero mip offset decodes to no pixel data,
/// whatever the other offsets hold.
pub proof fn lemma_zero_offset_no_data(b: Seq<u8>, m: MipTexture)
    requires
        miptex_decoded(b, m),
        !miptex_has_data(b),
    ensures
        m.data is None,
{
}

/// The font width resolves to `stored_width * 16` exactly when the
/// byte count remaining after the header and glyph table equals
/// `height * stored_width * 16 + 2 + 768 + 64`; otherwise it falls
/// back to 256.
pub proof fn lemma_font_width_resolution(b: Seq<u8>, f: Font)
    requires
        font_decoded(b, f),
    ensures
        b.len() - 1040 == f.height * font_stored_w(b) * 16 + 2 + 768 + 64 ==> f.width == (
        font_stored_w(b) * 16) as u32,
        b.len() - 1040 != f.height * font_stored_w(b) * 16 + 2 + 768 + 64 ==> f.width == 256,
{
}

/// Seek to `off` and read `n` raw bytes: one mip level's index buffer.
fn read_mip(src: &mut Source, off: u32, n: usize) -> (r: Result<Vec<u8>, DecodeError>)
    requires
        old(src).wf(),
        off + n <= old(src).bytes().len(),
    ensures
        final(src).wf(),
        final(src).bytes() == old(src).bytes(),
        r is Ok,
        r matches Ok(v) ==> v@ == old(src).bytes().subrange(off as int, off + n)
            && final(src).at() == off + n,
{
    let target: usize = off as usize;
    match src.seek(target) {
        Ok(_) => {},
        Err(e) => {
            return Err(e);
        },
    }
    src.take(n)
}

} // verus!
