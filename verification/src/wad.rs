//! The WAD3 archive decoder.
//!
//! A WAD3 buffer starts with the magic `WAD3`, an entry count and a
//! directory offset; the directory is a run of 32-byte records naming
//! a byte range and a content type each. Decoding is offered in two
//! modes: [`wad_entries`] reads the directory alone, so entries can be
//! decoded later and independently with [`decode_entry`]; [`archive`]
//! decodes every entry up front.

use vstd::prelude::*;
use vstd::utf8::{decode_utf8, valid_utf8};
use crate::error::DecodeError;
use crate::name::{cstr16, name_bytes, CStr16};
use crate::source::{le_u32_at, Source};
use crate::texture::{font, font_ok, miptex, miptex_err, miptex_ok, qpic, qpic_ok};
use crate::texture::{Font, MipTexture, Picture};
use crate::texture::{font_decoded, miptex_decoded, picture_decoded};
use crate::texture::{font_eq, miptex_eq, picture_eq};
use crate::texture::{
    lemma_font_decode_unique,
    lemma_miptex_decode_unique,
    lemma_picture_decode_unique,
};

verus! {

/// The kind of resource a WAD entry stores, from its type tag:
/// `0x42` picture, `0x43` mip texture, `0x46` font, anything else
/// opaque.
#[derive(Debug, Clone, Copy, PartialEq, Eq, Structural)]
pub enum ContentType {
    /// Raw single-level picture (qpic).
    Picture,
    /// Mip-mapped texture.
    MipTexture,
    /// Bitmap font resource.
    Font,
    /// Any other tag: kept, not decoded.
    Other(u8),
}

/// One directory record of a WAD archive: the byte range, type tag and
/// compression flag of one named resource. The name stands beside the
/// entry in the decoded directory.
#[derive(Debug, Clone, Copy, PartialEq, Eq, Structural)]
pub struct Entry {
    /// Byte offset from the start of the WAD buffer to the entry's data.
    pub offset: u32,
    /// Stored size of the resource in bytes.
    pub size: u32,
    /// Uncompressed size in bytes (informational only).
    pub full_size: u32,
    /// Type of content.
    pub ty: ContentType,
    /// Compression flag. A record whose flag is non-zero is refused
    /// as unsupported by the directory decode itself, so an entry a
    /// decoded directory hands out always carries zero here;
    /// [`decode_entry`] nonetheless re-checks the flag first.
    pub compression: u8,
}

/// The content tag `t` maps to.
pub open spec fn content_type_of(t: u8) -> ContentType {
    if t == 0x42 {
        ContentType::Picture
    } else if t == 0x43 {
        ContentType::MipTexture
    } else if t == 0x46 {
        ContentType::Font
    } else {
        ContentType::Other(t)
    }
}

/// True when the buffer starts with the magic bytes `WAD3`.
pub open spec fn wad_magic_ok(b: Seq<u8>) -> bool {
    b.len() >= 4 && b[0] == 0x57 && b[1] == 0x41 && b[2] == 0x44 && b[3] == 0x33
}

/// The directory's entry count field.
pub open spec fn wad_count(b: Seq<u8>) -> u32 {
    le_u32_at(b, 4)
}

/// The directory's offset field.
pub open spec fn wad_dir_off(b: Seq<u8>) -> u32 {
    le_u32_at(b, 8)
}

/// Where directory record `i` starts.
pub open spec fn entry_pos(b: Seq<u8>, i: int) -> int {
    wad_dir_off(b) + 32 * i
}

/// True when directory record `i` lies inside the buffer.
pub open spec fn entry_in_bounds(b: Seq<u8>, i: int) -> bool {
    entry_pos(b, i) + 32 <= b.len()
}

/// The fixed fields of directory record `i`.
pub open spec fn spec_entry(b: Seq<u8>, i: int) -> Entry {
    Entry {
        offset: le_u32_at(b, entry_pos(b, i)),
        size: le_u32_at(b, entry_pos(b, i) + 4),
        full_size: le_u32_at(b, entry_pos(b, i) + 8),
        ty: content_type_of(b[entry_pos(b, i) + 12]),
        compression: b[entry_pos(b, i) + 13],
    }
}

/// The bytes record `i`'s name field decodes from.
pub open spec fn entry_name_seq(b: Seq<u8>, i: int, lower: bool) -> Seq<u8> {
    name_bytes(b, entry_pos(b, i) + 16, lower)
}

/// The directory decodes successfully exactly when the 12-byte header
/// with the right magic is present, every record lies inside the
/// buffer, every record is uncompressed, and every record's name is
/// valid UTF-8. A compressed record fails the directory decode in
/// both modes: compressed entries are explicitly unsupported, never
/// silently kept.
pub open spec fn wad_ok(b: Seq<u8>, lower: bool) -> bool {
    &&& wad_magic_ok(b)
    &&& b.len() >= 12
    &&& (wad_count(b) > 0 ==> entry_pos(b, wad_count(b) as int) <= b.len())
    &&& (forall|i: int|
        0 <= i < wad_count(b) ==> (#[trigger] spec_entry(b, i)).compression == 0)
    &&& (forall|i: int|
        0 <= i < wad_count(b) ==> valid_utf8(#[trigger] entry_name_seq(b, i, lower)))
}

/// Record `i` of the directory reads whole: it lies inside the
/// buffer, its compression flag is zero, and its name is valid UTF-8.
pub open spec fn entry_rec_ok(b: Seq<u8>, i: int, lower: bool) -> bool {
    &&& entry_in_bounds(b, i)
    &&& spec_entry(b, i).compression == 0
    &&& valid_utf8(entry_name_seq(b, i, lower))
}

/// The error a failing record `i` reports, following the order its
/// fields are read in: truncation before the compression byte, then
/// the compression flag, then truncation before the end of the name
/// field, then a name that is not UTF-8.
pub open spec fn entry_rec_err(b: Seq<u8>, i: int, lower: bool) -> DecodeError {
    if entry_pos(b, i) + 14 > b.len() {
        DecodeError::UnexpectedEnd
    } else if spec_entry(b, i).compression != 0 {
        DecodeError::UnsupportedCompression
    } else if entry_pos(b, i) + 32 > b.len() {
        DecodeError::UnexpectedEnd
    } else {
        DecodeError::InvalidName
    }
}

/// The error the first failing record at or after index `i` reports.
pub open spec fn dir_err_from(b: Seq<u8>, lower: bool, i: int) -> DecodeError
    decreases wad_count(b) - i,
{
    if i < 0 || i >= wad_count(b) {
        DecodeError::UnexpectedEnd
    } else if !entry_rec_ok(b, i, lower) {
        entry_rec_err(b, i, lower)
    } else {
        dir_err_from(b, lower, i + 1)
    }
}

/// The error a failing directory decode reports: a header error, or
/// the first failing record's own error, in directory order.
pub open spec fn wad_err(b: Seq<u8>, lower: bool) -> DecodeError {
    if b.len() < 4 {
        DecodeError::UnexpectedEnd
    } else if !wad_magic_ok(b) {
        DecodeError::InvalidMagic
    } else if b.len() < 12 {
        DecodeError::UnexpectedEnd
    } else {
        dir_err_from(b, lower, 0)
    }
}

/// `v` is the decoded directory of `b`: one (name, entry) pair per
/// record, in directory order.
pub open spec fn directory_decoded(b: Seq<u8>, lower: bool, v: Seq<(CStr16, Entry)>) -> bool {
    &&& v.len() == wad_count(b)
    &&& (forall|i: int|
        0 <= i < v.len() ==> (#[trigger] v[i]).1 == spec_entry(b, i) && v[i].0@ == decode_utf8(
            entry_name_seq(b, i, lower),
        ))
}

/// When records before `i` read whole and record `i` does not, record
/// `i`'s error is the one the first-failure scan reports.
proof fn lemma_dir_err_at(b: Seq<u8>, lower: bool, k: int, i: int)
    requires
        0 <= k <= i < wad_count(b),
        forall|j: int| k <= j < i ==> #[trigger] entry_rec_ok(b, j, lower),
        !entry_rec_ok(b, i, lower),
    ensures
        dir_err_from(b, lower, k) == entry_rec_err(b, i, lower),
    decreases i - k,
{
    if k < i {
        lemma_dir_err_at(b, lower, k + 1, i);
    }
}

/// A directory whose record `i` fails — out of bounds, compressed, or
/// with an unreadable name — does not decode, and when the records
/// before it read whole, record `i`'s error is the one reported.
proof fn lemma_dir_failure(b: Seq<u8>, lower: bool, i: int)
    requires
        wad_magic_ok(b),
        b.len() >= 12,
        0 <= i < wad_count(b),
        forall|j: int| 0 <= j < i ==> #[trigger] entry_rec_ok(b, j, lower),
        !entry_rec_ok(b, i, lower),
    ensures
        !wad_ok(b, lower),
        wad_err(b, lower) == entry_rec_err(b, i, lower),
{
    if !entry_in_bounds(b, i) {
        assert(entry_pos(b, wad_count(b) as int) > b.len());
    }
    lemma_dir_err_at(b, lower, 0, i);
}

/// Decode a WAD3 buffer's 12-byte header alone: check the magic and
/// return the entry count and directory offset. Lets a caller that
/// reads from a larger source fetch just the directory's byte range
/// before decoding it.
pub fn wad_header(data: &[u8]) -> (r: Result<(u32, u32), DecodeError>)
    ensures
        r is Ok <==> wad_magic_ok(data@) && data@.len() >= 12,
        r matches Ok(h) ==> h.0 == wad_count(data@) && h.1 == wad_dir_off(data@),
        data@.len() < 4 ==> r == Err::<(u32, u32), DecodeError>(DecodeError::UnexpectedEnd),
        data@.len() >= 4 && !wad_magic_ok(data@) ==> r == Err::<(u32, u32), DecodeError>(
            DecodeError::InvalidMagic,
        ),
        data@.len() < 12 && wad_magic_ok(data@) ==> r == Err::<(u32, u32), DecodeError>(
            DecodeError::UnexpectedEnd,
        ),
{
    let mut src = Source::new(data);
    let magic = match src.take(4) {
        Ok(m) => m,
        Err(e) => {
            return Err(e);
        },
    };
    if !(magic[0] == 0x57 && magic[1] == 0x41 && magic[2] == 0x44 && magic[3] == 0x33) {
        return Err(DecodeError::InvalidMagic);
    }
    let count = match src.read_u32() {
        Ok(v) => v,
        Err(e) => {
            return Err(e);
        },
    };
    let dir_off = match src.read_u32() {
        Ok(v) => v,
        Err(e) => {
            return Err(e);
        },
    };
    Ok((count, dir_off))
}

/// Decode the directory of a WAD3 buffer: its (name, entry) pairs in
/// directory order, without touching any entry's data. A record with
/// a non-zero compression flag fails the decode immediately with the
/// unsupported-feature error. When `remap_name_to_lower` is set,
/// names are folded to ASCII lowercase (entry names are
/// case-insensitive in practice).
pub fn wad_entries(data: &[u8], remap_name_to_lower: bool) -> (r: Result<
    Vec<(CStr16, Entry)>,
    DecodeError,
>)
    ensures
        r is Ok <==> wad_ok(data@, remap_name_to_lower),
        r matches Ok(v) ==> directory_decoded(data@, remap_name_to_lower, v@),
        r is Err ==> r == Err::<Vec<(CStr16, Entry)>, DecodeError>(
            wad_err(data@, remap_name_to_lower),
        ),
{
    let ghost b = data@;
    let mut src = Source::new(data);
    let magic = match src.take(4) {
        Ok(m) => m,
        Err(e) => {
            return Err(e);
        },
    };
    if !(magic[0] == 0x57 && magic[1] == 0x41 && magic[2] == 0x44 && magic[3] == 0x33) {
        return Err(DecodeError::InvalidMagic);
    }
    let count = match src.read_u32() {
        Ok(v) => v,
        Err(e) => {
            return Err(e);
        },
    };
    let dir_off = match src.read_u32() {
        Ok(v) => v,
        Err(e) => {
            return Err(e);
        },
    };
    let mut out: Vec<(CStr16, Entry)> = Vec::new();
    if count == 0 {
        return Ok(out);
    }
    match src.seek(dir_off as usize) {
        Ok(_) => {},
        Err(e) => {
            proof {
                lemma_dir_failure(b, remap_name_to_lower, 0);
            }
            return Err(e);
        },
    }
    let n = count as usize;
    let mut i: usize = 0;
    while i < n
        invariant
            src.wf(),
            b == data@,
            src.bytes() == b,
            n == wad_count(b),
            n > 0,
            wad_magic_ok(b),
            b.len() >= 12,
            0 <= i <= n,
            src.at() == wad_dir_off(b) + 32 * i,
            out@.len() == i,
            forall|j: int|
                0 <= j < i ==> (#[trigger] out@[j]).1 == spec_entry(b, j) && out@[j].0@
                    == decode_utf8(entry_name_seq(b, j, remap_name_to_lower)),
            forall|j: int| 0 <= j < i ==> #[trigger] entry_rec_ok(b, j, remap_name_to_lower),
        decreases n - i,
    {
        let offset = match src.read_u32() {
            Ok(v) => v,
            Err(_) => {
                proof {
                    lemma_dir_failure(b, remap_name_to_lower, i as int);
                }
                return Err(DecodeError::UnexpectedEnd);
            },
        };
        let size = match src.read_u32() {
            Ok(v) => v,
            Err(_) => {
                proof {
                    lemma_dir_failure(b, remap_name_to_lower, i as int);
                }
                return Err(DecodeError::UnexpectedEnd);
            },
        };
        let full_size = match src.read_u32() {
            Ok(v) => v,
            Err(_) => {
                proof {
                    lemma_dir_failure(b, remap_name_to_lower, i as int);
                }
                return Err(DecodeError::UnexpectedEnd);
            },
        };
        let tag = match src.read_u8() {
            Ok(v) => v,
            Err(_) => {
                proof {
                    lemma_dir_failure(b, remap_name_to_lower, i as int);
                }
                return Err(DecodeError::UnexpectedEnd);
            },
        };
        let compression = match src.read_u8() {
            Ok(v) => v,
            Err(_) => {
                proof {
                    lemma_dir_failure(b, remap_name_to_lower, i as int);
                }
                return Err(DecodeError::UnexpectedEnd);
            },
        };
        // a compressed record fails the decode as soon as its flag is
        // read, before the rest of the record is looked at
        if compression != 0 {
            proof {
                assert(spec_entry(b, i as int).compression == compression);
                lemma_dir_failure(b, remap_name_to_lower, i as int);
            }
            return Err(DecodeError::UnsupportedCompression);
        }
        match src.read_u16() {
            Ok(_) => {},
            Err(_) => {
                proof {
                    lemma_dir_failure(b, remap_name_to_lower, i as int);
                }
                return Err(DecodeError::UnexpectedEnd);
            },
        }
        let name = match cstr16(&mut src, remap_name_to_lower) {
            Ok(s) => s,
            Err(e) => {
                proof {
                    lemma_dir_failure(b, remap_name_to_lower, i as int);
                }
                return Err(e);
            },
        };
        let ty = if tag == 0x42 {
            ContentType::Picture
        } else if tag == 0x43 {
            ContentType::MipTexture
        } else if tag == 0x46 {
            ContentType::Font
        } else {
            ContentType::Other(tag)
        };
        out.push((name, Entry { offset, size, full_size, ty, compression }));
        i = i + 1;
    }
    proof {
        assert forall|j: int|
            0 <= j < wad_count(b) implies (#[trigger] spec_entry(b, j)).compression == 0 by {
            assert(entry_rec_ok(b, j, remap_name_to_lower));
        }
        assert forall|j: int|
            0 <= j < wad_count(b) implies valid_utf8(
            #[trigger] entry_name_seq(b, j, remap_name_to_lower),
        ) by {
            assert(entry_rec_ok(b, j, remap_name_to_lower));
        }
    }
    Ok(out)
}

/// A decoded WAD resource: one variant per recognised content type,
/// plus the raw bytes of anything unrecognised.
#[derive(Debug, Clone, PartialEq)]
pub enum Content {
    /// A decoded single-level picture.
    Picture(Picture),
    /// A decoded mip-mapped texture.
    MipTexture(MipTexture),
    /// A decoded bitmap font.
    Font(Font),
    /// An unrecognised content type: the raw tag and the raw bytes.
    Other {
        /// The entry's raw type tag.
        ty: u8,
        /// The entry's raw bytes.
        data: Vec<u8>,
    },
}

/// The bytes entry `e` covers: `b[offset .. offset + size]`.
pub open spec fn entry_slice(b: Seq<u8>, e: Entry) -> Seq<u8> {
    b.subrange(e.offset as int, e.offset + e.size)
}

/// True when entry `e`'s byte range lies inside the buffer.
pub open spec fn entry_range_ok(b: Seq<u8>, e: Entry) -> bool {
    e.offset + e.size <= b.len()
}

/// An entry decodes successfully exactly when it is uncompressed, its
/// byte range lies inside the buffer, and its bytes decode under the
/// codec its type tag names (an unrecognised tag is kept raw, never an
/// error).
pub open spec fn content_ok(b: Seq<u8>, e: Entry) -> bool {
    &&& e.compression == 0
    &&& entry_range_ok(b, e)
    &&& match e.ty {
        ContentType::Picture => qpic_ok(entry_slice(b, e)),
        ContentType::MipTexture => miptex_ok(entry_slice(b, e)),
        ContentType::Font => font_ok(entry_slice(b, e)),
        ContentType::Other(_) => true,
    }
}

/// The error a failing entry decode reports. A non-zero compression
/// flag is refused before anything is read.
pub open spec fn content_err(b: Seq<u8>, e: Entry) -> DecodeError {
    if e.compression != 0 {
        DecodeError::UnsupportedCompression
    } else if !entry_range_ok(b, e) {
        DecodeError::UnexpectedEnd
    } else {
        match e.ty {
            ContentType::MipTexture => miptex_err(entry_slice(b, e)),
            _ => DecodeError::UnexpectedEnd,
        }
    }
}

/// `c` is the content decoded from entry `e` of buffer `b`.
pub open spec fn content_decoded(b: Seq<u8>, e: Entry, c: Content) -> bool {
    match c {
        Content::Picture(p) => e.ty == ContentType::Picture && picture_decoded(
            entry_slice(b, e),
            p,
        ),
        Content::MipTexture(m) => e.ty == ContentType::MipTexture && miptex_decoded(
            entry_slice(b, e),
            m,
        ),
        Content::Font(f) => e.ty == ContentType::Font && font_decoded(entry_slice(b, e), f),
        Content::Other { ty: t, data: d } => e.ty == ContentType::Other(t) && d@ == entry_slice(
            b,
            e,
        ),
    }
}

/// Decode one entry's content from the WAD buffer it was read from:
/// the lazy counterpart of [`archive`]. The entry's byte range is cut
/// out of `data` and handed to the codec its type tag names. An entry
/// with a non-zero compression flag is refused before anything is
/// read.
pub fn decode_entry(data: &[u8], entry: &Entry) -> (r: Result<Content, DecodeError>)
    ensures
        r is Ok <==> content_ok(data@, *entry),
        r matches Ok(c) ==> content_decoded(data@, *entry, c),
        r is Err ==> r == Err::<Content, DecodeError>(content_err(data@, *entry)),
{
    if entry.compression != 0 {
        return Err(DecodeError::UnsupportedCompression);
    }
    let off64: u64 = entry.offset as u64;
    let size64: u64 = entry.size as u64;
    if off64 + size64 > data.len() as u64 {
        return Err(DecodeError::UnexpectedEnd);
    }
    let lo: usize = entry.offset as usize;
    let hi: usize = lo + entry.size as usize;
    let part = vstd::slice::slice_subrange(data, lo, hi);
    match entry.ty {
        ContentType::Picture => match qpic(part) {
            Ok(p) => Ok(Content::Picture(p)),
            Err(e) => Err(e),
        },
        ContentType::MipTexture => match miptex(part) {
            Ok(m) => Ok(Content::MipTexture(m)),
            Err(e) => Err(e),
        },
        ContentType::Font => match font(part) {
            Ok(f) => Ok(Content::Font(f)),
            Err(e) => Err(e),
        },
        ContentType::Other(t) => Ok(
            Content::Other { ty: t, data: vstd::slice::slice_to_vec(part) },
        ),
    }
}

/// An eagerly decoded WAD archive: every entry's content, in
/// directory order, beside its name. When two entries share a name the
/// later one is authoritative: [`Archive::get`] answers from the last
/// pair with the asked-for name.
#[derive(Debug, Clone, PartialEq)]
pub struct Archive {
    /// The decoded (name, content) pairs, in directory order.
    pub contents: Vec<(CStr16, Content)>,
}

/// The name-to-content mapping a pair list denotes: later pairs with
/// the same name overwrite earlier ones.
pub open spec fn contents_map(s: Seq<(CStr16, Content)>) -> Map<Seq<char>, Content>
    decreases s.len(),
{
    if s.len() == 0 {
        Map::empty()
    } else {
        contents_map(s.drop_last()).insert(s.last().0@, s.last().1)
    }
}

/// The whole archive decodes successfully exactly when the directory
/// does and every entry's content does.
pub open spec fn archive_ok(b: Seq<u8>) -> bool {
    &&& wad_ok(b, false)
    &&& (forall|i: int| 0 <= i < wad_count(b) ==> content_ok(b, #[trigger] spec_entry(b, i)))
}

/// The error the first failing entry at or after index `i` reports.
pub open spec fn archive_err_from(b: Seq<u8>, i: int) -> DecodeError
    decreases wad_count(b) - i,
{
    if i < 0 || i >= wad_count(b) {
        DecodeError::UnexpectedEnd
    } else if !content_ok(b, spec_entry(b, i)) {
        content_err(b, spec_entry(b, i))
    } else {
        archive_err_from(b, i + 1)
    }
}

/// The error a failing eager decode reports: the directory's own
/// error, or the first failing entry's, in directory order.
pub open spec fn archive_err(b: Seq<u8>) -> DecodeError {
    if !wad_ok(b, false) {
        wad_err(b, false)
    } else {
        archive_err_from(b, 0)
    }
}

/// `a` is the eager decode of `b`: one (name, content) pair per
/// directory record, in directory order.
pub open spec fn archive_decoded(b: Seq<u8>, a: Archive) -> bool {
    &&& a.contents@.len() == wad_count(b)
    &&& (forall|i: int|
        0 <= i < wad_count(b) ==> (#[trigger] a.contents@[i]).0@ == decode_utf8(
            entry_name_seq(b, i, false),
        ) && content_decoded(b, spec_entry(b, i), a.contents@[i].1))
}

/// When entries before `i` decode and entry `i` does not, entry `i`'s
/// error is the one the whole decode reports.
proof fn lemma_archive_err_at(b: Seq<u8>, k: int, i: int)
    requires
        0 <= k <= i < wad_count(b),
        forall|j: int| k <= j < i ==> content_ok(b, #[trigger] spec_entry(b, j)),
        !content_ok(b, spec_entry(b, i)),
    ensures
        archive_err_from(b, k) == content_err(b, spec_entry(b, i)),
    decreases i - k,
{
    if k < i {
        lemma_archive_err_at(b, k + 1, i);
    }
}

/// Decode a whole WAD3 buffer up front: the directory, then every
/// entry's content through [`decode_entry`], in directory order.
pub fn archive(data: &[u8]) -> (r: Result<Archive, DecodeError>)
    ensures
        r is Ok <==> archive_ok(data@),
        r matches Ok(a) ==> archive_decoded(data@, a),
        r is Err ==> r == Err::<Archive, DecodeError>(archive_err(data@)),
{
    let ghost b = data@;
    let dir = match wad_entries(data, false) {
        Ok(v) => v,
        Err(e) => {
            return Err(e);
        },
    };
    let n = dir.len();
    let mut contents: Vec<(CStr16, Content)> = Vec::new();
    let mut i: usize = 0;
    while i < n
        invariant
            b == data@,
            n == dir@.len(),
            directory_decoded(b, false, dir@),
            wad_ok(b, false),
            0 <= i <= n,
            contents@.len() == i,
            forall|j: int| 0 <= j < i ==> content_ok(b, #[trigger] spec_entry(b, j)),
            forall|j: int|
                0 <= j < i ==> (#[trigger] contents@[j]).0@ == decode_utf8(
                    entry_name_seq(b, j, false),
                ) && content_decoded(b, spec_entry(b, j), contents@[j].1),
        decreases n - i,
    {
        let entry = dir[i].1;
        let content = match decode_entry(data, &entry) {
            Ok(c) => c,
            Err(e) => {
                proof {
                    lemma_archive_err_at(b, 0, i as int);
                }
                return Err(e);
            },
        };
        let name = dir[i].0.clone();
        contents.push((name, content));
        i = i + 1;
    }
    Ok(Archive { contents })
}

/// A name that occurs at `i` and nowhere later maps to pair `i`'s
/// content.
proof fn lemma_contents_map_at(s: Seq<(CStr16, Content)>, key: Seq<char>, i: int)
    requires
        0 <= i < s.len(),
        s[i].0@ == key,
        forall|j: int| i < j < s.len() ==> (#[trigger] s[j]).0@ != key,
    ensures
        contents_map(s).dom().contains(key),
        contents_map(s)[key] == s[i].1,
    decreases s.len(),
{
    if i == s.len() - 1 {
    } else {
        lemma_contents_map_at(s.drop_last(), key, i);
    }
}

/// A name that occurs nowhere maps to nothing.
proof fn lemma_contents_map_absent(s: Seq<(CStr16, Content)>, key: Seq<char>)
    requires
        forall|j: int| 0 <= j < s.len() ==> (#[trigger] s[j]).0@ != key,
    ensures
        !contents_map(s).dom().contains(key),
    decreases s.len(),
{
    if s.len() > 0 {
        lemma_contents_map_absent(s.drop_last(), key);
    }
}

/// `c1` and `c2` are the same content: the same variant, holding the
/// same decoded value.
pub open spec fn content_eq(c1: Content, c2: Content) -> bool {
    match c1 {
        Content::Picture(p1) => c2 matches Content::Picture(p2) && picture_eq(p1, p2),
        Content::MipTexture(m1) => c2 matches Content::MipTexture(m2) && miptex_eq(m1, m2),
        Content::Font(f1) => c2 matches Content::Font(f2) && font_eq(f1, f2),
        Content::Other { ty: t1, data: d1 } => c2 matches Content::Other {
            ty: t2,
            data: d2,
        } && t1 == t2 && d1@ == d2@,
    }
}

/// One entry has one decode: two contents decoded from the same entry
/// of the same buffer are the same content.
pub proof fn lemma_content_decode_unique(b: Seq<u8>, e: Entry, c1: Content, c2: Content)
    requires
        content_decoded(b, e, c1),
        content_decoded(b, e, c2),
    ensures
        content_eq(c1, c2),
{
    match c1 {
        Content::Picture(p1) => {
            match c2 {
                Content::Picture(p2) => {
                    lemma_picture_decode_unique(entry_slice(b, e), p1, p2);
                },
                _ => {},
            }
        },
        Content::MipTexture(m1) => {
            match c2 {
                Content::MipTexture(m2) => {
                    lemma_miptex_decode_unique(entry_slice(b, e), m1, m2);
                },
                _ => {},
            }
        },
        Content::Font(f1) => {
            match c2 {
                Content::Font(f2) => {
                    lemma_font_decode_unique(entry_slice(b, e), f1, f2);
                },
                _ => {},
            }
        },
        Content::Other { .. } => {},
    }
}

/// Decoding the directory and then every entry independently gives
/// the same contents as eager, up-front decoding: pair for pair, the
/// same name and the same content. (Success agrees too, by
/// definition: [`archive_ok`] is [`wad_ok`] together with
/// [`content_ok`] for every entry.)
pub proof fn lemma_eager_equals_lazy(
    b: Seq<u8>,
    a: Archive,
    dir: Seq<(CStr16, Entry)>,
    lazy: Seq<Content>,
)
    requires
        archive_decoded(b, a),
        directory_decoded(b, false, dir),
        lazy.len() == dir.len(),
        forall|i: int| 0 <= i < dir.len() ==> content_decoded(b, dir[i].1, #[trigger] lazy[i]),
    ensures
        a.contents@.len() == lazy.len(),
        forall|i: int|
            0 <= i < lazy.len() ==> (#[trigger] a.contents@[i]).0@ == dir[i].0@ && content_eq(
                a.contents@[i].1,
                lazy[i],
            ),
{
    assert forall|i: int|
        0 <= i < lazy.len() implies (#[trigger] a.contents@[i]).0@ == dir[i].0@ && content_eq(
        a.contents@[i].1,
        lazy[i],
    ) by {
        assert(dir[i].1 == spec_entry(b, i));
        assert(content_decoded(b, spec_entry(b, i), a.contents@[i].1));
        lemma_content_decode_unique(b, spec_entry(b, i), a.contents@[i].1, lazy[i]);
    }
}

/// An entry whose compression flag is non-zero is always refused with
/// the unsupported-feature error, whatever its type tag, range or
/// size.
pub proof fn lemma_compressed_entry_refused(b: Seq<u8>, e: Entry)
    requires
        e.compression != 0,
    ensures
        !content_ok(b, e),
        content_err(b, e) == DecodeError::UnsupportedCompression,
{
}

/// A directory holding any record with a non-zero compression flag
/// never decodes, in either mode, whatever the record's type tag or
/// size; when the records before it read whole, the error reported is
/// the unsupported-feature error.
pub proof fn lemma_compressed_directory_refused(b: Seq<u8>, lower: bool, i: int)
    requires
        0 <= i < wad_count(b),
        spec_entry(b, i).compression != 0,
    ensures
        !wad_ok(b, lower),
        !archive_ok(b),
        wad_magic_ok(b) && b.len() >= 12 && entry_in_bounds(b, i) && (forall|j: int|
            0 <= j < i ==> #[trigger] entry_rec_ok(b, j, lower)) ==> wad_err(b, lower)
            == DecodeError::UnsupportedCompression,
{
    assert(!wad_ok(b, false));
    if wad_magic_ok(b) && b.len() >= 12 && entry_in_bounds(b, i) && (forall|j: int|
        0 <= j < i ==> #[trigger] entry_rec_ok(b, j, lower)) {
        lemma_dir_failure(b, lower, i);
    }
}

impl Archive {
    /// Look a name up in the archive: the content of the last
    /// directory entry with that name, as [`contents_map`] says.
    pub fn get(&self, name: &CStr16) -> (r: Option<&Content>)
        ensures
            r is Some <==> contents_map(self.contents@).dom().contains(name@),
            r matches Some(c) ==> *c == contents_map(self.contents@)[name@],
    {
        let mut i: usize = self.contents.len();
        while i > 0
            invariant
                i <= self.contents@.len(),
                forall|j: int|
                    i <= j < self.contents@.len() ==> (#[trigger] self.contents@[j]).0@ != name@,
            decreases i,
        {
            i = i - 1;
            if self.contents[i].0 == *name {
                proof {
                    lemma_contents_map_at(self.contents@, name@, i as int);
                }
                return Some(&self.contents[i].1);
            }
        }
        proof {
            lemma_contents_map_absent(self.contents@, name@);
        }
        None
    }
}

} // verus!
