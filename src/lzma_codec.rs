//! The standard LZMA stream that stored module data is turned into before
//! it is handed to an LZMA decoder.

use vstd::prelude::*;
use crate::error::DecodeError;

verus! {

/// How many bytes of stored module data come before the padding.
pub const LZMA_HEADER_KEEP: usize = 0x0e;

/// Where the stored module data resumes after the padding.
pub const LZMA_BODY_START: usize = 0x11;

/// The standard stream rebuilt from stored module data: the first 0x0e
/// bytes, then everything from offset 0x11 on.
pub open spec fn lzma_input(raw: Seq<u8>) -> Seq<u8> {
    raw.subrange(0, 0x0e) + raw.subrange(0x11, raw.len() as int)
}

/// Drops the three padding bytes at 0x0e..0x11 from stored module data.
pub fn lzma_stream(raw: &[u8]) -> (r: Result<Vec<u8>, DecodeError>)
    ensures
        raw@.len() < 0x11 ==> r == Err::<Vec<u8>, DecodeError>(DecodeError::TruncatedInput),
        raw@.len() >= 0x11 ==> (r matches Ok(v) && v@ == lzma_input(raw@)),
{
    if raw.len() < LZMA_BODY_START {
        return Err(DecodeError::TruncatedInput);
    }
    let mut buf: Vec<u8> = Vec::new();
    let mut i: usize = 0;
    while i < LZMA_HEADER_KEEP
        invariant
            i <= LZMA_HEADER_KEEP,
            raw@.len() >= LZMA_BODY_START,
            buf@ == raw@.subrange(0, i as int),
        decreases LZMA_HEADER_KEEP - i,
    {
        buf.push(raw[i]);
        i = i + 1;
        assert(buf@ =~= raw@.subrange(0, i as int));
    }
    let mut j: usize = LZMA_BODY_START;
    while j < raw.len()
        invariant
            LZMA_BODY_START <= j <= raw@.len(),
            buf@ == raw@.subrange(0, 0x0e) + raw@.subrange(0x11, j as int),
        decreases raw@.len() - j,
    {
        buf.push(raw[j]);
        j = j + 1;
        assert(buf@ =~= raw@.subrange(0, 0x0e) + raw@.subrange(0x11, j as int));
    }
    Ok(buf)
}

} // verus!
