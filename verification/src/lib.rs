//! Decoders for the binary asset formats of the GoldSrc engine family:
//! compiled level geometry (BSP version 30) and WAD3 resource archives,
//! together with the embedded indexed-colour image formats (mip-mapped
//! textures, pictures, bitmap fonts) they carry.
//!
//! Every decoder works over an in-memory byte buffer and is specified
//! byte-exactly: the contracts state which bytes each field is decoded
//! from, when decoding succeeds, and which error is reported when it
//! does not. Floating-point fields are carried as raw 32-bit IEEE 754
//! bit patterns and never interpreted.

pub mod bsp;
pub mod entities;
pub mod error;
pub mod name;
pub mod source;
pub mod texture;
pub mod wad;

use vstd::prelude::*;

use crate::bsp::{level, level_decoded, level_err, level_ok, Level};
use crate::error::DecodeError;
use crate::texture::{
    font_decoded,
    font_ok,
    miptex_decoded,
    miptex_err,
    miptex_ok,
    qpic_ok,
    picture_decoded,
    Font,
    MipTexture,
    Picture,
};

verus! {

/// Decode a BSP level buffer. See [`bsp::level`].
pub fn bsp(data: &[u8]) -> (r: Result<Level, DecodeError>)
    ensures
        r is Ok <==> level_ok(data@),
        r matches Ok(lv) ==> level_decoded(data@, lv),
        r is Err ==> r == Err::<Level, DecodeError>(level_err(data@)),
{
    level(data)
}

/// Decode a single-level picture (qpic) record. See [`texture::qpic`].
pub fn pic(data: &[u8]) -> (r: Result<Picture, DecodeError>)
    ensures
        r is Ok <==> qpic_ok(data@),
        r matches Ok(p) ==> picture_decoded(data@, p),
        r is Err ==> r == Err::<Picture, DecodeError>(DecodeError::UnexpectedEnd),
{
    crate::texture::qpic(data)
}

/// Decode a mip-texture record. See [`texture::miptex`].
pub fn miptex(data: &[u8]) -> (r: Result<MipTexture, DecodeError>)
    ensures
        r is Ok <==> miptex_ok(data@),
        r matches Ok(m) ==> miptex_decoded(data@, m),
        r is Err ==> r == Err::<MipTexture, DecodeError>(miptex_err(data@)),
{
    crate::texture::miptex(data)
}

/// Decode a bitmap-font record. See [`texture::font`].
pub fn font(data: &[u8]) -> (r: Result<Font, DecodeError>)
    ensures
        r is Ok <==> font_ok(data@),
        r matches Ok(f) ==> font_decoded(data@, f),
        r is Err ==> r == Err::<Font, DecodeError>(DecodeError::UnexpectedEnd),
{
    crate::texture::font(data)
}

} // verus!
