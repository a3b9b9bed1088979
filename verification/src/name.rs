//! Fixed-width names: the 16-byte, NUL-padded, UTF-8 text fields used
//! by WAD directory records and mip-texture headers.

use vstd::prelude::*;
use vstd::utf8::{decode_utf8, valid_utf8};
use crate::error::DecodeError;
use crate::source::Source;

verus! {

/// A name decoded from a 16-byte NUL-padded field.
///
/// At most 16 bytes of UTF-8, truncated at the first NUL.
pub type CStr16 = String;

/// Byte length of the on-disk name field.
pub const NAME_LEN: usize = 16;

/// The prefix of `b` that stands before its first NUL byte
/// (all of `b` when it holds no NUL).
pub open spec fn trunc_nul(b: Seq<u8>) -> Seq<u8>
    decreases b.len(),
{
    if b.len() == 0 {
        b
    } else if b[0] == 0 {
        Seq::empty()
    } else {
        seq![b[0]] + trunc_nul(b.drop_first())
    }
}

/// `x` with an ASCII capital letter mapped to its small form.
pub open spec fn lower_byte(x: u8) -> u8 {
    if 65 <= x <= 90 {
        (x + 32) as u8
    } else {
        x
    }
}

/// `b` with every ASCII capital letter mapped to its small form.
pub open spec fn ascii_lower(b: Seq<u8>) -> Seq<u8> {
    Seq::new(b.len(), |i: int| lower_byte(b[i]))
}

/// The bytes a name field at `pos` decodes from: the 16 raw bytes,
/// truncated at the first NUL, folded to lowercase when `lower` is set.
pub open spec fn name_bytes(b: Seq<u8>, pos: int, lower: bool) -> Seq<u8> {
    let t = trunc_nul(b.subrange(pos, pos + NAME_LEN as int));
    if lower {
        ascii_lower(t)
    } else {
        t
    }
}

/// Relies on `String::from_utf8`: it succeeds exactly on input that is
/// valid UTF-8, and then returns that input, decoded, unchanged.
#[verifier::external_body]
fn string_from_utf8(v: Vec<u8>) -> (r: Option<String>)
    ensures
        r is Some <==> valid_utf8(v@),
        r matches Some(s) ==> s@ == decode_utf8(v@),
{
    String::from_utf8(v).ok()
}

/// `trunc_nul` of a sequence is its prefix of length `i` when the first
/// `i` bytes are non-NUL and byte `i`, if any, is NUL.
proof fn lemma_trunc_nul_take(b: Seq<u8>, i: int)
    requires
        0 <= i <= b.len(),
        forall|j: int| 0 <= j < i ==> b[j] != 0,
        i < b.len() ==> b[i] == 0,
    ensures
        trunc_nul(b) == b.take(i),
    decreases b.len(),
{
    if b.len() == 0 {
        assert(trunc_nul(b) == b.take(i));
    } else if b[0] == 0 {
        assert(i == 0);
        assert(b.take(0) =~= Seq::<u8>::empty());
    } else {
        assert(i >= 1);
        lemma_trunc_nul_take(b.drop_first(), i - 1);
        assert(trunc_nul(b) == seq![b[0]] + b.drop_first().take(i - 1));
        assert(seq![b[0]] + b.drop_first().take(i - 1) =~= b.take(i));
    }
}

/// Decode a 16-byte NUL-padded name field at the cursor, folding it to
/// ASCII lowercase when `lower` is set.
pub fn cstr16(src: &mut Source, lower: bool) -> (r: Result<CStr16, DecodeError>)
    requires
        old(src).wf(),
    ensures
        final(src).wf(),
        final(src).bytes() == old(src).bytes(),
        r is Ok <==> old(src).at() + NAME_LEN <= old(src).bytes().len()
            && valid_utf8(name_bytes(old(src).bytes(), old(src).at(), lower)),
        r matches Ok(s) ==> final(src).at() == old(src).at() + NAME_LEN
            && s@ == decode_utf8(name_bytes(old(src).bytes(), old(src).at(), lower)),
        old(src).at() + NAME_LEN > old(src).bytes().len() ==> r == Err::<CStr16, DecodeError>(
            DecodeError::UnexpectedEnd,
        ),
        old(src).at() + NAME_LEN <= old(src).bytes().len() && !valid_utf8(
            name_bytes(old(src).bytes(), old(src).at(), lower),
        ) ==> r == Err::<CStr16, DecodeError>(DecodeError::InvalidName),
    {
        let ghost start = src.at();
        let raw = match src.take(NAME_LEN) {
            Ok(v) => v,
            Err(e) => {
                return Err(e);
            },
        };
        let ghost raw16 = old(src).bytes().subrange(start, start + NAME_LEN as int);
        // find the first NUL
        let mut i: usize = 0;
        while i < NAME_LEN && *vstd::slice::slice_index_get(raw.as_slice(), i) != 0
            invariant
                0 <= i <= NAME_LEN,
                raw@ == raw16,
                raw@.len() == NAME_LEN,
                forall|j: int| 0 <= j < i ==> raw@[j] != 0,
            decreases NAME_LEN - i,
        {
            i = i + 1;
        }
        proof {
            lemma_trunc_nul_take(raw16, i as int);
        }
        // keep the prefix, folding case if asked to
        let mut kept: Vec<u8> = Vec::new();
        let mut j: usize = 0;
        while j < i
            invariant
                0 <= j <= i <= NAME_LEN,
                raw@ == raw16,
                raw@.len() == NAME_LEN,
                kept@.len() == j,
                forall|k: int| 0 <= k < j ==> kept@[k] == (if lower {
                    lower_byte(raw16[k])
                } else {
                    raw16[k]
                }),
            decreases i - j,
        {
            let x = *vstd::slice::slice_index_get(raw.as_slice(), j);
            let y = if lower {
                if 65 <= x && x <= 90 {
                    x + 32
                } else {
                    x
                }
            } else {
                x
            };
            kept.push(y);
            j = j + 1;
        }
        proof {
            if lower {
                assert(kept@ =~= ascii_lower(trunc_nul(raw16)));
            } else {
                assert(kept@ =~= trunc_nul(raw16));
            }
            assert(kept@ == name_bytes(old(src).bytes(), start, lower));
        }
        match string_from_utf8(kept) {
            Some(s) => Ok(s),
            None => Err(DecodeError::InvalidName),
        }
    }

} // verus!
