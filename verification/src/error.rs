//! The error taxonomy shared by every decoder in the crate.

use vstd::prelude::*;

verus! {

/// Why a decode failed.
///
/// Decoding is fail-fast: the first error encountered aborts the whole
/// decode and no partial result is returned. The variants keep the
/// failure categories distinguishable, so a caller can react differently
/// to "not a WAD" versus "truncated file" versus "unsupported
/// compression".
#[derive(Debug, Clone, Copy, PartialEq, Eq, Structural)]
pub enum DecodeError {
    /// Format violation: a WAD buffer did not start with the magic `WAD3`.
    InvalidMagic,
    /// Format violation: a BSP buffer whose version field is not 30.
    UnsupportedVersion,
    /// Format violation: a 16-byte name field held text that is not
    /// valid UTF-8.
    InvalidName,
    /// Format violation: a typed BSP lump whose byte size is not a
    /// multiple of its record size.
    BadLumpSize,
    /// Truncation: fewer bytes were available than a field or record
    /// requires.
    UnexpectedEnd,
    /// Unsupported feature: a WAD entry with a non-zero compression flag.
    UnsupportedCompression,
}

} // verus!
