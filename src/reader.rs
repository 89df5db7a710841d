//! Big-endian primitive readers over a byte slice.
//!
//! Each reader returns the decoded value together with the part of the slice
//! that follows it, or `DecodeError::InsufficientBytes` when the slice ends
//! before the value does.

use vstd::prelude::*;
use vstd::slice::slice_subrange;

verus! {

/// Why a decode failed: the buffer ended before the field being read.
#[derive(Clone, Copy, Debug, PartialEq, Eq, Structural)]
pub enum DecodeError {
    InsufficientBytes,
}

/// The byte at offset `i` of `s`.
pub open spec fn u8_at(s: Seq<u8>, i: int) -> u8 {
    s[i]
}

/// The big-endian 16-bit value of the two bytes at offset `i` of `s`.
pub open spec fn u16_at(s: Seq<u8>, i: int) -> u16 {
    (s[i] * 256 + s[i + 1]) as u16
}

/// The big-endian 32-bit value of the four bytes at offset `i` of `s`.
pub open spec fn u32_at(s: Seq<u8>, i: int) -> u32 {
    (s[i] * 16777216 + s[i + 1] * 65536 + s[i + 2] * 256 + s[i + 3]) as u32
}

/// Everything of `s` from offset `n` on.
pub open spec fn after(s: Seq<u8>, n: int) -> Seq<u8> {
    s.subrange(n, s.len() as int)
}

/// Reads one byte.
pub fn read_u8(bytes: &[u8]) -> (r: Result<(&[u8], u8), DecodeError>)
    ensures
        match r {
            Ok((rest, v)) => bytes@.len() >= 1 && v == u8_at(bytes@, 0) && rest@ == after(
                bytes@,
                1,
            ),
            Err(e) => bytes@.len() < 1 && e == DecodeError::InsufficientBytes,
        },
{
    if bytes.len() < 1 {
        Err(DecodeError::InsufficientBytes)
    } else {
        Ok((slice_subrange(bytes, 1, bytes.len()), bytes[0]))
    }
}

/// Reads a big-endian 16-bit value.
pub fn read_u16(bytes: &[u8]) -> (r: Result<(&[u8], u16), DecodeError>)
    ensures
        match r {
            Ok((rest, v)) => bytes@.len() >= 2 && v == u16_at(bytes@, 0) && rest@ == after(
                bytes@,
                2,
            ),
            Err(e) => bytes@.len() < 2 && e == DecodeError::InsufficientBytes,
        },
{
    if bytes.len() < 2 {
        Err(DecodeError::InsufficientBytes)
    } else {
        let v: u16 = (bytes[0] as u16) * 256 + (bytes[1] as u16);
        Ok((slice_subrange(bytes, 2, bytes.len()), v))
    }
}

/// Reads a big-endian 32-bit value.
pub fn read_u32(bytes: &[u8]) -> (r: Result<(&[u8], u32), DecodeError>)
    ensures
        match r {
            Ok((rest, v)) => bytes@.len() >= 4 && v == u32_at(bytes@, 0) && rest@ == after(
                bytes@,
                4,
            ),
            Err(e) => bytes@.len() < 4 && e == DecodeError::InsufficientBytes,
        },
{
    if bytes.len() < 4 {
        Err(DecodeError::InsufficientBytes)
    } else {
        let v: u32 = (bytes[0] as u32) * 16777216 + (bytes[1] as u32) * 65536 + (bytes[2] as u32)
            * 256 + (bytes[3] as u32);
        Ok((slice_subrange(bytes, 4, bytes.len()), v))
    }
}

/// Skips `n` bytes that carry no value, such as the padding of a record.
pub fn skip(bytes: &[u8], n: usize) -> (r: Result<&[u8], DecodeError>)
    ensures
        match r {
            Ok(rest) => bytes@.len() >= n && rest@ == after(bytes@, n as int),
            Err(e) => bytes@.len() < n && e == DecodeError::InsufficientBytes,
        },
{
    if bytes.len() < n {
        Err(DecodeError::InsufficientBytes)
    } else {
        Ok(slice_subrange(bytes, n, bytes.len()))
    }
}

} // verus!
