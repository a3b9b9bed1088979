//! A positioned cursor over an in-memory byte buffer.
//!
//! This is the one byte-access strategy of the crate: every decoder
//! reads its fields, in the exact order the format defines, through a
//! [`Source`]. Reads of fixed-width scalars are little-endian; a read
//! that would pass the end of the buffer fails with
//! [`DecodeError::UnexpectedEnd`] and leaves the cursor where it was.

use vstd::prelude::*;
use vstd::bytes::{spec_u16_from_le_bytes, spec_u32_from_le_bytes, u16_from_le_bytes, u32_from_le_bytes};
use vstd::slice::{slice_subrange, slice_to_vec};
use crate::error::DecodeError;

verus! {

/// The little-endian `u16` stored at `b[pos .. pos + 2]`.
pub open spec fn le_u16_at(b: Seq<u8>, pos: int) -> u16 {
    spec_u16_from_le_bytes(b.subrange(pos, pos + 2))
}

/// The little-endian `u32` stored at `b[pos .. pos + 4]`.
pub open spec fn le_u32_at(b: Seq<u8>, pos: int) -> u32 {
    spec_u32_from_le_bytes(b.subrange(pos, pos + 4))
}

/// The little-endian `i16` stored at `b[pos .. pos + 2]`:
/// the unsigned value reinterpreted as two's complement.
pub open spec fn le_i16_at(b: Seq<u8>, pos: int) -> i16 {
    le_u16_at(b, pos) as i16
}

/// The little-endian `i32` stored at `b[pos .. pos + 4]`:
/// the unsigned value reinterpreted as two's complement.
pub open spec fn le_i32_at(b: Seq<u8>, pos: int) -> i32 {
    le_u32_at(b, pos) as i32
}

/// A read-only cursor over a byte buffer: the buffer plus the position
/// of the next byte to read.
pub struct Source<'a> {
    pub data: &'a [u8],
    pub pos: usize,
}

impl<'a> Source<'a> {
    /// The whole underlying buffer.
    pub open spec fn bytes(self) -> Seq<u8> {
        self.data@
    }

    /// The position of the next byte to read.
    pub open spec fn at(self) -> int {
        self.pos as int
    }

    /// The cursor never stands past the end of the buffer.
    pub open spec fn wf(self) -> bool {
        self.pos <= self.data@.len()
    }

    /// A cursor over `data`, positioned at its start.
    pub fn new(data: &'a [u8]) -> (s: Source<'a>)
        ensures
            s.wf(),
            s.bytes() == data@,
            s.at() == 0,
    {
        Source { data, pos: 0 }
    }

    /// How many bytes remain from the cursor to the end of the buffer.
    pub fn remaining(&self) -> (n: usize)
        requires
            self.wf(),
        ensures
            n == self.bytes().len() - self.at(),
    {
        self.data.len() - self.pos
    }

    /// Move the cursor to the absolute position `pos`.
    pub fn seek(&mut self, pos: usize) -> (r: Result<(), DecodeError>)
        requires
            old(self).wf(),
        ensures
            final(self).wf(),
            final(self).bytes() == old(self).bytes(),
            r is Ok <==> pos <= old(self).bytes().len(),
            r is Ok ==> final(self).at() == pos,
            r is Err ==> r == Err::<(), DecodeError>(DecodeError::UnexpectedEnd)
                && final(self).at() == old(self).at(),
    {
        if pos <= self.data.len() {
            self.pos = pos;
            Ok(())
        } else {
            Err(DecodeError::UnexpectedEnd)
        }
    }

    /// Read one byte.
    pub fn read_u8(&mut self) -> (r: Result<u8, DecodeError>)
        requires
            old(self).wf(),
        ensures
            final(self).wf(),
            final(self).bytes() == old(self).bytes(),
            r is Ok <==> old(self).at() + 1 <= old(self).bytes().len(),
            r matches Ok(v) ==> final(self).at() == old(self).at() + 1
                && v == old(self).bytes()[old(self).at()],
            r is Err ==> r == Err::<u8, DecodeError>(DecodeError::UnexpectedEnd)
                && final(self).at() == old(self).at(),
    {
        if self.pos < self.data.len() {
            let b = self.data[self.pos];
            self.pos = self.pos + 1;
            Ok(b)
        } else {
            Err(DecodeError::UnexpectedEnd)
        }
    }

    /// Read a little-endian `u16`.
    pub fn read_u16(&mut self) -> (r: Result<u16, DecodeError>)
        requires
            old(self).wf(),
        ensures
            final(self).wf(),
            final(self).bytes() == old(self).bytes(),
            r is Ok <==> old(self).at() + 2 <= old(self).bytes().len(),
            r matches Ok(v) ==> final(self).at() == old(self).at() + 2
                && v == le_u16_at(old(self).bytes(), old(self).at()),
            r is Err ==> r == Err::<u16, DecodeError>(DecodeError::UnexpectedEnd)
                && final(self).at() == old(self).at(),
    {
        if self.data.len() - self.pos >= 2 {
            let w = slice_subrange(self.data, self.pos, self.pos + 2);
            let v = u16_from_le_bytes(w);
            self.pos = self.pos + 2;
            Ok(v)
        } else {
            Err(DecodeError::UnexpectedEnd)
        }
    }

    /// Read a little-endian `u32`.
    pub fn read_u32(&mut self) -> (r: Result<u32, DecodeError>)
        requires
            old(self).wf(),
        ensures
            final(self).wf(),
            final(self).bytes() == old(self).bytes(),
            r is Ok <==> old(self).at() + 4 <= old(self).bytes().len(),
            r matches Ok(v) ==> final(self).at() == old(self).at() + 4
                && v == le_u32_at(old(self).bytes(), old(self).at()),
            r is Err ==> r == Err::<u32, DecodeError>(DecodeError::UnexpectedEnd)
                && final(self).at() == old(self).at(),
    {
        if self.data.len() - self.pos >= 4 {
            let w = slice_subrange(self.data, self.pos, self.pos + 4);
            let v = u32_from_le_bytes(w);
            self.pos = self.pos + 4;
            Ok(v)
        } else {
            Err(DecodeError::UnexpectedEnd)
        }
    }

    /// Read a little-endian `i16` (two's complement).
    pub fn read_i16(&mut self) -> (r: Result<i16, DecodeError>)
        requires
            old(self).wf(),
        ensures
            final(self).wf(),
            final(self).bytes() == old(self).bytes(),
            r is Ok <==> old(self).at() + 2 <= old(self).bytes().len(),
            r matches Ok(v) ==> final(self).at() == old(self).at() + 2
                && v == le_i16_at(old(self).bytes(), old(self).at()),
            r is Err ==> r == Err::<i16, DecodeError>(DecodeError::UnexpectedEnd)
                && final(self).at() == old(self).at(),
    {
        match self.read_u16() {
            Ok(v) => Ok(#[verifier::truncate] (v as i16)),
            Err(e) => Err(e),
        }
    }

    /// Read a little-endian `i32` (two's complement).
    pub fn read_i32(&mut self) -> (r: Result<i32, DecodeError>)
        requires
            old(self).wf(),
        ensures
            final(self).wf(),
            final(self).bytes() == old(self).bytes(),
            r is Ok <==> old(self).at() + 4 <= old(self).bytes().len(),
            r matches Ok(v) ==> final(self).at() == old(self).at() + 4
                && v == le_i32_at(old(self).bytes(), old(self).at()),
            r is Err ==> r == Err::<i32, DecodeError>(DecodeError::UnexpectedEnd)
                && final(self).at() == old(self).at(),
    {
        match self.read_u32() {
            Ok(v) => Ok(#[verifier::truncate] (v as i32)),
            Err(e) => Err(e),
        }
    }

    /// Read `n` raw bytes into a fresh vector.
    pub fn take(&mut self, n: usize) -> (r: Result<Vec<u8>, DecodeError>)
        requires
            old(self).wf(),
        ensures
            final(self).wf(),
            final(self).bytes() == old(self).bytes(),
            r is Ok <==> old(self).at() + n <= old(self).bytes().len(),
            r matches Ok(v) ==> final(self).at() == old(self).at() + n
                && v@ == old(self).bytes().subrange(old(self).at(), old(self).at() + n),
            r is Err ==> r == Err::<Vec<u8>, DecodeError>(DecodeError::UnexpectedEnd)
                && final(self).at() == old(self).at(),
    {
        if n <= self.data.len() - self.pos {
            let w = slice_subrange(self.data, self.pos, self.pos + n);
            let v = slice_to_vec(w);
            self.pos = self.pos + n;
            Ok(v)
        } else {
            Err(DecodeError::UnexpectedEnd)
        }
    }
}

} // verus!
