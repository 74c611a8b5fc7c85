use vstd::prelude::*;
use vstd::utf8::*;

use crate::error::{Error, ResponseFault};
use crate::protocol::MAX_PACKET_SIZE;

verus! {

/// The little-endian 16-bit value at `b[p..p + 2]`.
pub open spec fn le16(b: Seq<u8>, p: int) -> int {
    b[p] as int + 256 * b[p + 1] as int
}

/// The little-endian 32-bit value at `b[p..p + 4]`.
pub open spec fn le32(b: Seq<u8>, p: int) -> int {
    b[p] as int + 256 * b[p + 1] as int + 65536 * b[p + 2] as int + 16777216 * b[p + 3] as int
}

/// The two's-complement reading of a 32-bit pattern.
pub open spec fn i32_of(u: u32) -> i32 {
    if u < 0x8000_0000 {
        u as i32
    } else {
        (u as int - 0x1_0000_0000) as i32
    }
}

/// Reading one byte at `p`: the byte and the position after it.
pub open spec fn take_u8(b: Seq<u8>, p: int) -> Result<(u8, int), Error> {
    if p + 1 <= b.len() {
        Ok((b[p], p + 1))
    } else {
        Err(Error::ShortRead)
    }
}

/// Reading a little-endian `u16` at `p`.
pub open spec fn take_u16(b: Seq<u8>, p: int) -> Result<(u16, int), Error> {
    if p + 2 <= b.len() {
        Ok((le16(b, p) as u16, p + 2))
    } else {
        Err(Error::ShortRead)
    }
}

/// Reading a little-endian `u32` at `p`.
pub open spec fn take_u32(b: Seq<u8>, p: int) -> Result<(u32, int), Error> {
    if p + 4 <= b.len() {
        Ok((le32(b, p) as u32, p + 4))
    } else {
        Err(Error::ShortRead)
    }
}

/// Reading a little-endian `i32` at `p`.
pub open spec fn take_i32(b: Seq<u8>, p: int) -> Result<(i32, int), Error> {
    match take_u32(b, p) {
        Ok((u, q)) => Ok((i32_of(u), q)),
        Err(e) => Err(e),
    }
}

/// The length prefix of width `w` bytes at `p`.
pub open spec fn prefix_at(b: Seq<u8>, p: int, w: int) -> int {
    if w == 1 {
        b[p] as int
    } else if w == 2 {
        le16(b, p)
    } else {
        le32(b, p)
    }
}

/// Reading a string whose byte length stands before it in `w` little-endian bytes.
#[verifier::opaque]
pub open spec fn take_str(b: Seq<u8>, p: int, w: int) -> Result<(Seq<char>, int), Error> {
    if p + w > b.len() {
        Err(Error::ShortRead)
    } else {
        let n = prefix_at(b, p, w);
        let s = p + w;
        if n > MAX_PACKET_SIZE {
            Err(Error::InvalidResponse(ResponseFault::LengthExceedsMax))
        } else if s + n > b.len() {
            Err(Error::ShortRead)
        } else if !valid_utf8(b.subrange(s, s + n)) {
            Err(Error::InvalidUtf8)
        } else {
            Ok((decode_utf8(b.subrange(s, s + n)), s + n))
        }
    }
}

/// A read result with the position as a mathematical integer.
pub open spec fn lift<T>(r: Result<(T, usize), Error>) -> Result<(T, int), Error> {
    match r {
        Ok((v, p)) => Ok((v, p as int)),
        Err(e) => Err(e),
    }
}

/// A string read result as text, with the position as a mathematical integer.
pub open spec fn lift_str(r: Result<(String, usize), Error>) -> Result<(Seq<char>, int), Error> {
    match r {
        Ok((v, p)) => Ok((v@, p as int)),
        Err(e) => Err(e),
    }
}

/// Relies on `String::from_utf8`: it fails exactly when the bytes are not
/// UTF-8, and otherwise the string holds the characters those bytes encode.
#[verifier::external_body]
fn string_from_utf8(bytes: Vec<u8>) -> (r: Option<String>)
    ensures
        r is Some <==> valid_utf8(bytes@),
        r matches Some(s) ==> s@ == decode_utf8(bytes@),
{
    String::from_utf8(bytes).ok()
}

/// Decodes a whole byte string as UTF-8 text.
pub fn utf8_text(bytes: &[u8]) -> (r: Result<String, Error>)
    ensures
        r is Ok <==> valid_utf8(bytes@),
        r matches Ok(s) ==> s@ == decode_utf8(bytes@),
        r matches Err(e) ==> e is InvalidUtf8,
{
    let mut v: Vec<u8> = Vec::new();
    let mut i: usize = 0;
    while i < bytes.len()
        invariant
            0 <= i <= bytes.len(),
            v@ == bytes@.subrange(0, i as int),
        decreases bytes.len() - i,
    {
        v.push(bytes[i]);
        i = i + 1;
        assert(v@ =~= bytes@.subrange(0, i as int));
    }
    assert(v@ =~= bytes@);
    match string_from_utf8(v) {
        Some(s) => Ok(s),
        None => Err(Error::InvalidUtf8),
    }
}

/// Reads one byte at `pos`.
pub fn read_u8(b: &[u8], pos: usize) -> (r: Result<(u8, usize), Error>)
    ensures
        lift(r) == take_u8(b@, pos as int),
{
    if pos >= b.len() {
        return Err(Error::ShortRead);
    }
    Ok((b[pos], pos + 1))
}

/// Reads a little-endian `u16` at `pos`.
pub fn read_u16_le(b: &[u8], pos: usize) -> (r: Result<(u16, usize), Error>)
    ensures
        lift(r) == take_u16(b@, pos as int),
{
    if pos >= b.len() || b.len() - pos < 2 {
        return Err(Error::ShortRead);
    }
    let v: u16 = b[pos] as u16 + 256 * (b[pos + 1] as u16);
    Ok((v, pos + 2))
}

/// Reads a little-endian `u32` at `pos`.
pub fn read_u32_le(b: &[u8], pos: usize) -> (r: Result<(u32, usize), Error>)
    ensures
        lift(r) == take_u32(b@, pos as int),
{
    if pos >= b.len() || b.len() - pos < 4 {
        return Err(Error::ShortRead);
    }
    let v: u32 = b[pos] as u32 + 256 * (b[pos + 1] as u32) + 65536 * (b[pos + 2] as u32)
        + 16777216 * (b[pos + 3] as u32);
    Ok((v, pos + 4))
}

/// Reads a little-endian `i32` at `pos`.
pub fn read_i32_le(b: &[u8], pos: usize) -> (r: Result<(i32, usize), Error>)
    ensures
        lift(r) == take_i32(b@, pos as int),
{
    match read_u32_le(b, pos) {
        Ok((u, q)) => {
            let v: i32 = if u < 0x8000_0000 {
                u as i32
            } else {
                ((u - 0x8000_0000) as i32) + i32::MIN
            };
            Ok((v, q))
        },
        Err(e) => Err(e),
    }
}

/// Reads the `n` bytes at `start` as UTF-8 text.
fn read_text(b: &[u8], start: usize, n: usize) -> (r: Result<(String, usize), Error>)
    requires
        start <= b@.len(),
        n <= MAX_PACKET_SIZE,
    ensures
        lift_str(r) == (if start + n > b@.len() {
            Err(Error::ShortRead)
        } else if !valid_utf8(b@.subrange(start as int, start + n)) {
            Err(Error::InvalidUtf8)
        } else {
            Ok((decode_utf8(b@.subrange(start as int, start + n)), start + n))
        }),
{
    if n > b.len() - start {
        return Err(Error::ShortRead);
    }
    let end = start + n;
    let mut v: Vec<u8> = Vec::new();
    let mut i: usize = start;
    while i < end
        invariant
            start <= i <= end <= b@.len(),
            v@ == b@.subrange(start as int, i as int),
        decreases end - i,
    {
        v.push(b[i]);
        i = i + 1;
        assert(v@ =~= b@.subrange(start as int, i as int));
    }
    match string_from_utf8(v) {
        Some(s) => Ok((s, end)),
        None => Err(Error::InvalidUtf8),
    }
}

/// Reads a string whose length stands before it in one byte.
pub fn read_str_u8(b: &[u8], pos: usize) -> (r: Result<(String, usize), Error>)
    ensures
        lift_str(r) == take_str(b@, pos as int, 1),
{
    reveal(take_str);
    match read_u8(b, pos) {
        Ok((n, q)) => read_text(b, q, n as usize),
        Err(e) => Err(e),
    }
}

/// Reads a string whose length stands before it in two little-endian bytes.
pub fn read_str_u16_le(b: &[u8], pos: usize) -> (r: Result<(String, usize), Error>)
    ensures
        lift_str(r) == take_str(b@, pos as int, 2),
{
    reveal(take_str);
    match read_u16_le(b, pos) {
        Ok((n, q)) => {
            if n as usize > MAX_PACKET_SIZE {
                return Err(Error::InvalidResponse(ResponseFault::LengthExceedsMax));
            }
            read_text(b, q, n as usize)
        },
        Err(e) => Err(e),
    }
}

/// Reads a string whose length stands before it in four little-endian bytes.
pub fn read_str_u32_le(b: &[u8], pos: usize) -> (r: Result<(String, usize), Error>)
    ensures
        lift_str(r) == take_str(b@, pos as int, 4),
{
    reveal(take_str);
    match read_u32_le(b, pos) {
        Ok((n, q)) => {
            if n > 2048 {
                return Err(Error::InvalidResponse(ResponseFault::LengthExceedsMax));
            }
            read_text(b, q, n as usize)
        },
        Err(e) => Err(e),
    }
}

} // verus!
