//! Little-endian integers: what a run of bytes denotes, and the decoders.
use byteorder::{ByteOrder, LittleEndian};
use vstd::prelude::*;

verus! {

/// The 16-bit number held by `s[at]` and `s[at + 1]`, low byte first.
pub open spec fn u16_at(s: Seq<u8>, at: int) -> u16 {
    (s[at] as int + 0x100 * (s[at + 1] as int)) as u16
}

/// The 32-bit number held by the four bytes from `s[at]`, low byte first.
pub open spec fn u32_at(s: Seq<u8>, at: int) -> u32 {
    (u16_at(s, at) as int + 0x1_0000 * (u16_at(s, at + 2) as int)) as u32
}

/// The 64-bit number held by the eight bytes from `s[at]`, low byte first.
pub open spec fn u64_at(s: Seq<u8>, at: int) -> u64 {
    (u32_at(s, at) as int + 0x1_0000_0000 * (u32_at(s, at + 4) as int)) as u64
}

/// The 128-bit number held by the sixteen bytes from `s[at]`, low byte first.
pub open spec fn u128_at(s: Seq<u8>, at: int) -> u128 {
    (u64_at(s, at) as int + 0x1_0000_0000_0000_0000 * (u64_at(s, at + 8) as int)) as u128
}

/// The byte `s[at]` read as a two's complement number.
pub open spec fn i8_at(s: Seq<u8>, at: int) -> i8 {
    if s[at] < 0x80 {
        s[at] as i8
    } else {
        (s[at] as int - 0x100) as i8
    }
}

/// The two bytes from `s[at]` read as a two's complement number.
pub open spec fn i16_at(s: Seq<u8>, at: int) -> i16 {
    if u16_at(s, at) < 0x8000 {
        u16_at(s, at) as i16
    } else {
        (u16_at(s, at) as int - 0x1_0000) as i16
    }
}

/// The four bytes from `s[at]` read as a two's complement number.
pub open spec fn i32_at(s: Seq<u8>, at: int) -> i32 {
    if u32_at(s, at) < 0x8000_0000 {
        u32_at(s, at) as i32
    } else {
        (u32_at(s, at) as int - 0x1_0000_0000) as i32
    }
}

/// The eight bytes from `s[at]` read as a two's complement number.
pub open spec fn i64_at(s: Seq<u8>, at: int) -> i64 {
    if u64_at(s, at) < 0x8000_0000_0000_0000 {
        u64_at(s, at) as i64
    } else {
        (u64_at(s, at) as int - 0x1_0000_0000_0000_0000) as i64
    }
}

/// The sixteen bytes from `s[at]` read as a two's complement number.
pub open spec fn i128_at(s: Seq<u8>, at: int) -> i128 {
    if u128_at(s, at) < 0x8000_0000_0000_0000_0000_0000_0000_0000 {
        u128_at(s, at) as i128
    } else {
        (u128_at(s, at) as int - 0x1_0000_0000_0000_0000_0000_0000_0000_0000) as i128
    }
}

/// Trusted: `byteorder::LittleEndian::read_u16`. It decodes the first two
/// bytes of `buf`, low byte first, and panics on a shorter slice.
#[verifier::external_body]
pub(crate) fn le_u16(buf: &[u8]) -> (r: u16)
    requires
        buf@.len() >= 2,
    ensures
        r == u16_at(buf@, 0),
{
    LittleEndian::read_u16(buf)
}

/// Trusted: `byteorder::LittleEndian::read_u32`. It decodes the first four
/// bytes of `buf`, low byte first, and panics on a shorter slice.
#[verifier::external_body]
pub(crate) fn le_u32(buf: &[u8]) -> (r: u32)
    requires
        buf@.len() >= 4,
    ensures
        r == u32_at(buf@, 0),
{
    LittleEndian::read_u32(buf)
}

/// Trusted: `byteorder::LittleEndian::read_u64`. It decodes the first eight
/// bytes of `buf`, low byte first, and panics on a shorter slice.
#[verifier::external_body]
pub(crate) fn le_u64(buf: &[u8]) -> (r: u64)
    requires
        buf@.len() >= 8,
    ensures
        r == u64_at(buf@, 0),
{
    LittleEndian::read_u64(buf)
}

/// Trusted: `byteorder::LittleEndian::read_u128`. It decodes the first
/// sixteen bytes of `buf`, low byte first, and panics on a shorter slice.
#[verifier::external_body]
pub(crate) fn le_u128(buf: &[u8]) -> (r: u128)
    requires
        buf@.len() >= 16,
    ensures
        r == u128_at(buf@, 0),
{
    LittleEndian::read_u128(buf)
}

/// Trusted: `byteorder::LittleEndian::read_i16`, which is `read_u16` cast to
/// `i16`: the same two bytes as a two's complement number.
#[verifier::external_body]
pub(crate) fn le_i16(buf: &[u8]) -> (r: i16)
    requires
        buf@.len() >= 2,
    ensures
        r == i16_at(buf@, 0),
{
    LittleEndian::read_i16(buf)
}

/// Trusted: `byteorder::LittleEndian::read_i32`, which is `read_u32` cast to
/// `i32`: the same four bytes as a two's complement number.
#[verifier::external_body]
pub(crate) fn le_i32(buf: &[u8]) -> (r: i32)
    requires
        buf@.len() >= 4,
    ensures
        r == i32_at(buf@, 0),
{
    LittleEndian::read_i32(buf)
}

/// Trusted: `byteorder::LittleEndian::read_i64`, which is `read_u64` cast to
/// `i64`: the same eight bytes as a two's complement number.
#[verifier::external_body]
pub(crate) fn le_i64(buf: &[u8]) -> (r: i64)
    requires
        buf@.len() >= 8,
    ensures
        r == i64_at(buf@, 0),
{
    LittleEndian::read_i64(buf)
}

/// Trusted: `byteorder::LittleEndian::read_i128`, which is `read_u128` cast
/// to `i128`: the same sixteen bytes as a two's complement number.
#[verifier::external_body]
pub(crate) fn le_i128(buf: &[u8]) -> (r: i128)
    requires
        buf@.len() >= 16,
    ensures
        r == i128_at(buf@, 0),
{
    LittleEndian::read_i128(buf)
}

/// A decoded number depends on no byte outside the run it is read from: the
/// bytes from `at` in `s` and the same bytes at the start of a copy agree.
pub proof fn lemma_at_subrange(s: Seq<u8>, at: int, end: int)
    requires
        0 <= at <= end <= s.len(),
    ensures
        at + 2 <= end ==> u16_at(s.subrange(at, end), 0) == u16_at(s, at) && i16_at(
            s.subrange(at, end),
            0,
        ) == i16_at(s, at),
        at + 4 <= end ==> u32_at(s.subrange(at, end), 0) == u32_at(s, at) && i32_at(
            s.subrange(at, end),
            0,
        ) == i32_at(s, at),
        at + 8 <= end ==> u64_at(s.subrange(at, end), 0) == u64_at(s, at) && i64_at(
            s.subrange(at, end),
            0,
        ) == i64_at(s, at),
        at + 16 <= end ==> u128_at(s.subrange(at, end), 0) == u128_at(s, at) && i128_at(
            s.subrange(at, end),
            0,
        ) == i128_at(s, at),
        at + 1 <= end ==> s.subrange(at, end)[0] == s[at] && i8_at(s.subrange(at, end), 0)
            == i8_at(s, at),
{
}

} // verus!
