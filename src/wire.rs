//! Primitive pieces of the binary layout: little-endian integers and
//! length-prefixed byte strings, read at a position of a buffer.

use vstd::bytes::*;
use vstd::prelude::*;
use vstd::slice::*;

verus! {

/// Why a byte sequence could not be decoded.
#[derive(Clone, Copy, Debug, PartialEq, Eq, Structural)]
pub enum DecodeError {
    /// The buffer ended before a field was complete, or a length prefix
    /// exceeds the bytes that remain.
    UnexpectedEnd,
    /// A variant discriminant is not one of the known tags.
    UnknownTag,
    /// An optional field's presence flag is neither 0 nor 1.
    InvalidPresenceFlag,
    /// A string field does not hold valid UTF-8.
    InvalidUtf8,
    /// Bytes remain after the last field.
    TrailingBytes,
}

/// The encoding of a `u32` length prefix followed by the bytes themselves.
pub open spec fn spec_encode_bytes(b: Seq<u8>) -> Seq<u8> {
    spec_u32_to_le_bytes(b.len() as u32) + b
}

/// Reads the 8-byte little-endian integer that starts at `pos`.
pub open spec fn spec_read_u64(b: Seq<u8>, pos: int) -> Result<(u64, int), DecodeError> {
    if b.len() - pos < 8 {
        Err(DecodeError::UnexpectedEnd)
    } else {
        Ok((spec_u64_from_le_bytes(b.subrange(pos, pos + 8)), pos + 8))
    }
}

/// Reads the length-prefixed byte string that starts at `pos`.
pub open spec fn spec_read_bytes(b: Seq<u8>, pos: int) -> Result<(Seq<u8>, int), DecodeError> {
    if b.len() - pos < 4 {
        Err(DecodeError::UnexpectedEnd)
    } else {
        let n = spec_u32_from_le_bytes(b.subrange(pos, pos + 4)) as int;
        if b.len() - (pos + 4) < n {
            Err(DecodeError::UnexpectedEnd)
        } else {
            Ok((b.subrange(pos + 4, pos + 4 + n), pos + 4 + n))
        }
    }
}

/// Appends the little-endian bytes of `x`.
pub fn write_u64(out: &mut Vec<u8>, x: u64)
    ensures
        final(out)@ == old(out)@ + spec_u64_to_le_bytes(x),
{
    let bytes = u64_to_le_bytes(x);
    out.extend_from_slice(bytes.as_slice());
}

/// Appends a `u32` length prefix and then the bytes of `data`.
pub fn write_bytes(out: &mut Vec<u8>, data: &[u8])
    requires
        data@.len() <= u32::MAX,
    ensures
        final(out)@ == old(out)@ + spec_encode_bytes(data@),
{
    let prefix = u32_to_le_bytes(data.len() as u32);
    out.extend_from_slice(prefix.as_slice());
    out.extend_from_slice(data);
    proof {
        assert(final(out)@ =~= old(out)@ + spec_encode_bytes(data@));
    }
}

/// Reads the 8-byte little-endian integer that starts at `pos`.
pub fn read_u64(b: &[u8], pos: usize) -> (r: Result<(u64, usize), DecodeError>)
    requires
        pos <= b@.len(),
    ensures
        match r {
            Ok((x, p)) => spec_read_u64(b@, pos as int) == Ok::<(u64, int), DecodeError>(
                (x, p as int),
            ),
            Err(e) => spec_read_u64(b@, pos as int) == Err::<(u64, int), DecodeError>(e),
        },
{
    if b.len() - pos < 8 {
        Err(DecodeError::UnexpectedEnd)
    } else {
        let x = u64_from_le_bytes(slice_subrange(b, pos, pos + 8));
        Ok((x, pos + 8))
    }
}

/// Reads the length-prefixed byte string that starts at `pos`.
pub fn read_bytes(b: &[u8], pos: usize) -> (r: Result<(Vec<u8>, usize), DecodeError>)
    requires
        pos <= b@.len(),
    ensures
        match r {
            Ok((v, p)) => spec_read_bytes(b@, pos as int) == Ok::<(Seq<u8>, int), DecodeError>(
                (v@, p as int),
            ),
            Err(e) => spec_read_bytes(b@, pos as int) == Err::<(Seq<u8>, int), DecodeError>(e),
        },
{
    if b.len() - pos < 4 {
        return Err(DecodeError::UnexpectedEnd);
    }
    let n = u32_from_le_bytes(slice_subrange(b, pos, pos + 4)) as usize;
    if b.len() - (pos + 4) < n {
        return Err(DecodeError::UnexpectedEnd);
    }
    let v = slice_to_vec(slice_subrange(b, pos + 4, pos + 4 + n));
    Ok((v, pos + 4 + n))
}

/// Reading back an encoded byte string at any position yields the bytes and
/// the position just after them.
pub proof fn lemma_read_encoded_bytes(pre: Seq<u8>, data: Seq<u8>, post: Seq<u8>)
    requires
        data.len() <= u32::MAX,
    ensures
        spec_read_bytes(pre + spec_encode_bytes(data) + post, pre.len() as int) == Ok::<
            (Seq<u8>, int),
            DecodeError,
        >((data, (pre.len() + 4 + data.len()) as int)),
{
    lemma_auto_spec_u32_to_from_le_bytes();
    let b = pre + spec_encode_bytes(data) + post;
    let p = pre.len() as int;
    assert(b.subrange(p, p + 4) =~= spec_u32_to_le_bytes(data.len() as u32));
    assert(b.subrange(p + 4, p + 4 + data.len()) =~= data);
}

/// Reading back an encoded integer at any position yields it and the
/// position just after it.
pub proof fn lemma_read_encoded_u64(pre: Seq<u8>, x: u64, post: Seq<u8>)
    ensures
        spec_read_u64(pre + spec_u64_to_le_bytes(x) + post, pre.len() as int) == Ok::<
            (u64, int),
            DecodeError,
        >((x, (pre.len() + 8) as int)),
{
    lemma_auto_spec_u64_to_from_le_bytes();
    let b = pre + spec_u64_to_le_bytes(x) + post;
    let p = pre.len() as int;
    assert(b.subrange(p, p + 8) =~= spec_u64_to_le_bytes(x));
}

} // verus!
