//! Little-endian scalar and string readers over an in-memory byte buffer.
//!
//! Every reader takes the buffer and a position and returns the value read
//! together with the position just past it, or [`Error::UnexpectedEof`] when
//! the buffer ends first.
use super::error::Error;
use byteorder::{ByteOrder, LittleEndian};
use vstd::prelude::*;
use vstd::slice::slice_subrange;
use vstd::slice::slice_to_vec;
use vstd::utf8::decode_utf8;
use vstd::utf8::valid_utf8;

verus! {

/// The `u16` whose little-endian encoding starts `b`.
pub open spec fn spec_le_u16(b: Seq<u8>) -> u16 {
    (b[0] as int + 0x100 * b[1] as int) as u16
}

/// The `u32` whose little-endian encoding starts `b`.
pub open spec fn spec_le_u32(b: Seq<u8>) -> u32 {
    (b[0] as int + 0x100 * b[1] as int + 0x1_0000 * b[2] as int + 0x100_0000 * b[3] as int) as u32
}

/// The `u64` whose little-endian encoding starts `b`.
pub open spec fn spec_le_u64(b: Seq<u8>) -> u64 {
    (spec_le_u32(b) as int + 0x1_0000_0000 * spec_le_u32(b.subrange(4, 8)) as int) as u64
}

/// `LittleEndian::read_u16` of byteorder: the first two bytes of `buf` as a
/// little-endian `u16`. It panics on a shorter buffer, which `requires` rules out.
#[verifier::external_body]
fn le_u16(buf: &[u8]) -> (res: u16)
    requires
        buf@.len() >= 2,
    ensures
        res == spec_le_u16(buf@),
{
    LittleEndian::read_u16(buf)
}

/// `LittleEndian::read_u32` of byteorder: the first four bytes of `buf` as a
/// little-endian `u32`. It panics on a shorter buffer, which `requires` rules out.
#[verifier::external_body]
fn le_u32(buf: &[u8]) -> (res: u32)
    requires
        buf@.len() >= 4,
    ensures
        res == spec_le_u32(buf@),
{
    LittleEndian::read_u32(buf)
}

/// `LittleEndian::read_u64` of byteorder: the first eight bytes of `buf` as a
/// little-endian `u64`. It panics on a shorter buffer, which `requires` rules out.
#[verifier::external_body]
fn le_u64(buf: &[u8]) -> (res: u64)
    requires
        buf@.len() >= 8,
    ensures
        res == spec_le_u64(buf@),
{
    LittleEndian::read_u64(buf)
}

/// What `String::from_utf8` of std reports when `bytes` are not valid UTF-8:
/// the bytes themselves and the place of their first invalid sequence.
pub uninterp spec fn utf8_failure(bytes: Seq<u8>) -> std::string::FromUtf8Error;

/// `String::from_utf8` of std: succeeds exactly on valid UTF-8 and then
/// holds the characters that the bytes encode; otherwise its error is the one
/// named by [`utf8_failure`] for these bytes.
#[verifier::external_body]
fn string_from_utf8(bytes: Vec<u8>) -> (res: Result<String, std::string::FromUtf8Error>)
    ensures
        res is Ok <==> valid_utf8(bytes@),
        res matches Ok(s) ==> s@ == decode_utf8(bytes@),
        res matches Err(e) ==> e == utf8_failure(bytes@),
{
    String::from_utf8(bytes)
}

/// Relates the result of an executable reader to the result of its specification.
pub open spec fn read_agrees<T>(res: Result<(T, usize), Error>, spec: Result<(T, int), Error>) -> bool {
    match res {
        Ok((v, p)) => spec == Ok::<(T, int), Error>((v, p as int)),
        Err(e) => spec == Err::<(T, int), Error>(e),
    }
}

/// Reading `n` bytes at `pos`: the position after them, or the end-of-file error.
pub open spec fn spec_skip(b: Seq<u8>, pos: int, n: int) -> Result<int, Error> {
    if 0 <= pos && pos + n <= b.len() {
        Ok(pos + n)
    } else {
        Err(Error::UnexpectedEof)
    }
}

pub open spec fn spec_read_u8(b: Seq<u8>, pos: int) -> Result<(u8, int), Error> {
    match spec_skip(b, pos, 1) {
        Ok(p) => Ok((b[pos], p)),
        Err(e) => Err(e),
    }
}

pub open spec fn spec_read_u16(b: Seq<u8>, pos: int) -> Result<(u16, int), Error> {
    match spec_skip(b, pos, 2) {
        Ok(p) => Ok((spec_le_u16(b.subrange(pos, p)), p)),
        Err(e) => Err(e),
    }
}

pub open spec fn spec_read_u32(b: Seq<u8>, pos: int) -> Result<(u32, int), Error> {
    match spec_skip(b, pos, 4) {
        Ok(p) => Ok((spec_le_u32(b.subrange(pos, p)), p)),
        Err(e) => Err(e),
    }
}

pub open spec fn spec_read_u64(b: Seq<u8>, pos: int) -> Result<(u64, int), Error> {
    match spec_skip(b, pos, 8) {
        Ok(p) => Ok((spec_le_u64(b.subrange(pos, p)), p)),
        Err(e) => Err(e),
    }
}

/// A GGUF string: a little-endian `u64` byte length followed by that many
/// bytes of UTF-8.
pub open spec fn spec_read_string(b: Seq<u8>, pos: int) -> Result<(Seq<char>, int), Error> {
    match spec_read_u64(b, pos) {
        Err(e) => Err(e),
        Ok((n, p)) => match spec_skip(b, p, n as int) {
            Err(e) => Err(e),
            Ok(end) => if valid_utf8(b.subrange(p, end)) {
                Ok((decode_utf8(b.subrange(p, end)), end))
            } else {
                Err(Error::InvalidUtf8(utf8_failure(b.subrange(p, end))))
            },
        },
    }
}

/// Checks that `n` bytes can be read at `pos` and returns the position after them.
fn skip(bytes: &[u8], pos: usize, n: u64) -> (res: Result<usize, Error>)
    ensures
        match res {
            Ok(p) => spec_skip(bytes@, pos as int, n as int) == Ok::<int, Error>(p as int),
            Err(e) => spec_skip(bytes@, pos as int, n as int) == Err::<int, Error>(e),
        },
{
    let len = bytes.len();
    if pos <= len && n <= (len - pos) as u64 {
        Ok(pos + n as usize)
    } else {
        Err(Error::UnexpectedEof)
    }
}

pub fn read_u8(bytes: &[u8], pos: usize) -> (res: Result<(u8, usize), Error>)
    ensures
        read_agrees(res, spec_read_u8(bytes@, pos as int)),
{
    let p = skip(bytes, pos, 1)?;
    Ok((bytes[pos], p))
}

pub fn read_u16(bytes: &[u8], pos: usize) -> (res: Result<(u16, usize), Error>)
    ensures
        read_agrees(res, spec_read_u16(bytes@, pos as int)),
{
    let p = skip(bytes, pos, 2)?;
    let v = le_u16(slice_subrange(bytes, pos, p));
    Ok((v, p))
}

pub fn read_u32(bytes: &[u8], pos: usize) -> (res: Result<(u32, usize), Error>)
    ensures
        read_agrees(res, spec_read_u32(bytes@, pos as int)),
{
    let p = skip(bytes, pos, 4)?;
    let v = le_u32(slice_subrange(bytes, pos, p));
    Ok((v, p))
}

pub fn read_u64(bytes: &[u8], pos: usize) -> (res: Result<(u64, usize), Error>)
    ensures
        read_agrees(res, spec_read_u64(bytes@, pos as int)),
{
    let p = skip(bytes, pos, 8)?;
    let v = le_u64(slice_subrange(bytes, pos, p));
    Ok((v, p))
}

/// Read a length-prefixed UTF-8 string.
pub fn read_string(bytes: &[u8], pos: usize) -> (res: Result<(String, usize), Error>)
    ensures
        match res {
            Ok((s, p)) => spec_read_string(bytes@, pos as int) == Ok::<(Seq<char>, int), Error>(
                (s@, p as int),
            ),
            Err(e) => spec_read_string(bytes@, pos as int) == Err::<(Seq<char>, int), Error>(e),
        },
{
    let (n, p) = read_u64(bytes, pos)?;
    let end = skip(bytes, p, n)?;
    let raw = slice_to_vec(slice_subrange(bytes, p, end));
    match string_from_utf8(raw) {
        Ok(s) => Ok((s, end)),
        Err(e) => Err(Error::InvalidUtf8(e)),
    }
}

} // verus!

verus! {

/// Puts already-decoded records in front of the result of decoding the rest.
pub open spec fn prepend_all<T>(prefix: Seq<T>, rest: Result<(Seq<T>, int), Error>) -> Result<
    (Seq<T>, int),
    Error,
> {
    match rest {
        Ok((vs, p)) => Ok((prefix + vs, p)),
        Err(e) => Err(e),
    }
}

} // verus!
