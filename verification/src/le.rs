//! Little-endian integers in a byte sequence, as arithmetic on the bytes.

use vstd::prelude::*;

verus! {

/// The bits of an IEEE-754 single-precision number.
#[derive(Debug, Clone, Copy, PartialEq, Eq)]
pub struct FloatBits {
    /// The sign, the exponent and the fraction, from the highest bit down.
    pub bits: u32,
}

/// The byte stored at `at`.
pub open spec fn u8_at(data: Seq<u8>, at: int) -> u8 {
    data[at]
}

/// The unsigned 16-bit integer stored at `at`, low byte first.
pub open spec fn u16_at(data: Seq<u8>, at: int) -> u16 {
    (data[at] + 0x100 * data[at + 1]) as u16
}

/// The unsigned 32-bit integer stored at `at`, low byte first.
pub open spec fn u32_at(data: Seq<u8>, at: int) -> u32 {
    (data[at] + 0x100 * data[at + 1] + 0x1_0000 * data[at + 2] + 0x100_0000 * data[at + 3]) as u32
}

/// The unsigned 64-bit integer stored at `at`, low byte first.
pub open spec fn u64_at(data: Seq<u8>, at: int) -> u64 {
    (u32_at(data, at) + 0x1_0000_0000 * u32_at(data, at + 4)) as u64
}

/// The byte `b` read as a two's complement signed integer.
pub open spec fn i8_of(b: u8) -> i8 {
    if b < 0x80 {
        b as i8
    } else {
        (b - 0x100) as i8
    }
}

/// The 16 bits of `x` read as a two's complement signed integer.
pub open spec fn i16_of(x: u16) -> i16 {
    if x < 0x8000 {
        x as i16
    } else {
        (x - 0x1_0000) as i16
    }
}

/// The 32 bits of `x` read as a two's complement signed integer.
pub open spec fn i32_of(x: u32) -> i32 {
    if x < 0x8000_0000 {
        x as i32
    } else {
        (x - 0x1_0000_0000) as i32
    }
}

/// The signed 8-bit integer stored at `at`.
pub open spec fn i8_at(data: Seq<u8>, at: int) -> i8 {
    i8_of(data[at])
}

/// The signed 16-bit integer stored at `at`, low byte first.
pub open spec fn i16_at(data: Seq<u8>, at: int) -> i16 {
    i16_of(u16_at(data, at))
}

/// The signed 32-bit integer stored at `at`, low byte first.
pub open spec fn i32_at(data: Seq<u8>, at: int) -> i32 {
    i32_of(u32_at(data, at))
}

/// The single-precision number whose bits are stored at `at`, low byte first.
pub open spec fn f32_at(data: Seq<u8>, at: int) -> FloatBits {
    FloatBits { bits: u32_at(data, at) }
}

/// The byte that stores `x`.
pub open spec fn u8_bytes(x: u8) -> Seq<u8> {
    seq![x]
}

/// The byte that stores `x` in two's complement.
pub open spec fn i8_bytes(x: i8) -> Seq<u8> {
    seq![(if x >= 0 { x as int } else { x + 0x100 }) as u8]
}

/// The two bytes that store `x`, low byte first.
pub open spec fn u16_bytes(x: u16) -> Seq<u8> {
    seq![(x % 0x100) as u8, (x / 0x100) as u8]
}

/// The two bytes that store `x` in two's complement, low byte first.
pub open spec fn i16_bytes(x: i16) -> Seq<u8> {
    u16_bytes((if x >= 0 { x as int } else { x + 0x1_0000 }) as u16)
}

/// The four bytes that store `x`, low byte first.
pub open spec fn u32_bytes(x: u32) -> Seq<u8> {
    seq![
        (x % 0x100) as u8,
        (x / 0x100 % 0x100) as u8,
        (x / 0x1_0000 % 0x100) as u8,
        (x / 0x100_0000) as u8,
    ]
}

/// The four bytes that store `x` in two's complement, low byte first.
pub open spec fn i32_bytes(x: i32) -> Seq<u8> {
    u32_bytes((if x >= 0 { x as int } else { x + 0x1_0000_0000 }) as u32)
}

/// The eight bytes that store `x`, low byte first.
pub open spec fn u64_bytes(x: u64) -> Seq<u8> {
    seq![
        (x % 0x100) as u8,
        (x / 0x100 % 0x100) as u8,
        (x / 0x1_0000 % 0x100) as u8,
        (x / 0x100_0000 % 0x100) as u8,
        (x / 0x1_0000_0000 % 0x100) as u8,
        (x / 0x100_0000_0000 % 0x100) as u8,
        (x / 0x1_0000_0000_0000 % 0x100) as u8,
        (x / 0x100_0000_0000_0000) as u8,
    ]
}

/// The four bytes that store the bits of `x`, low byte first.
pub open spec fn f32_bytes(x: FloatBits) -> Seq<u8> {
    u32_bytes(x.bits)
}

/// The digits to base 256 of a number written with four such digits.
proof fn lemma_digits(b0: u8, b1: u8, b2: u8, b3: u8)
    ensures
        ({
            let x = b0 + 0x100 * b1 + 0x1_0000 * b2 + 0x100_0000 * b3;
            &&& 0 <= x <= u32::MAX
            &&& x % 0x100 == b0
            &&& x / 0x100 % 0x100 == b1
            &&& x / 0x1_0000 % 0x100 == b2
            &&& x / 0x100_0000 == b3
        }),
{
}

/// Two's complement keeps the bits: a signed integer is stored as the
/// unsigned integer that it was read from.
proof fn lemma_signed(b: u8, x: u16, y: u32)
    ensures
        i8_bytes(i8_of(b)) == u8_bytes(b),
        i16_bytes(i16_of(x)) == u16_bytes(x),
        i32_bytes(i32_of(y)) == u32_bytes(y),
{
}

/// The four bytes that store an unsigned 32-bit integer are read as that
/// integer, and so are the eight bytes that store it.
pub proof fn lemma_u32_stored(x: u32)
    ensures
        u32_at(u32_bytes(x), 0) == x,
        u64_at(u64_bytes(x as u64), 0) == x,
{
}

/// An integer of one byte is stored as the byte it was read from; behind
/// the bytes from `from` to `at`, that byte gives the bytes from `from` to
/// `at + 1`.
pub proof fn lemma_byte_round_trip(data: Seq<u8>, from: int, at: int)
    requires
        0 <= from <= at < data.len(),
    ensures
        u8_bytes(u8_at(data, at)) == data.subrange(at, at + 1),
        i8_bytes(i8_at(data, at)) == data.subrange(at, at + 1),
        data.subrange(from, at) + data.subrange(at, at + 1) == data.subrange(from, at + 1),
{
    lemma_signed(data[at], 0, 0);
}

/// An integer of two bytes is stored as the bytes it was read from; behind
/// the bytes from `from` to `at`, those bytes give the bytes from `from` to
/// `at + 2`.
pub proof fn lemma_pair_round_trip(data: Seq<u8>, from: int, at: int)
    requires
        0 <= from <= at,
        at + 2 <= data.len(),
    ensures
        u16_bytes(u16_at(data, at)) == data.subrange(at, at + 2),
        i16_bytes(i16_at(data, at)) == data.subrange(at, at + 2),
        data.subrange(from, at) + data.subrange(at, at + 2) == data.subrange(from, at + 2),
{
    lemma_signed(0, u16_at(data, at), 0);
}

/// An integer of four bytes, and a single-precision number, is stored as the
/// bytes it was read from; behind the bytes from `from` to `at`, those bytes
/// give the bytes from `from` to `at + 4`.
pub proof fn lemma_quad_round_trip(data: Seq<u8>, from: int, at: int)
    requires
        0 <= from <= at,
        at + 4 <= data.len(),
    ensures
        u32_bytes(u32_at(data, at)) == data.subrange(at, at + 4),
        i32_bytes(i32_at(data, at)) == data.subrange(at, at + 4),
        f32_bytes(f32_at(data, at)) == data.subrange(at, at + 4),
        data.subrange(from, at) + data.subrange(at, at + 4) == data.subrange(from, at + 4),
{
    lemma_digits(data[at], data[at + 1], data[at + 2], data[at + 3]);
    lemma_signed(0, 0, u32_at(data, at));
}

/// Reads the unsigned 16-bit integer at `at`.
pub(crate) fn get_u16(data: &[u8], at: usize) -> (x: u16)
    requires
        at + 2 <= data@.len(),
    ensures
        x == u16_at(data@, at as int),
{
    let b0: u16 = data[at] as u16;
    let b1: u16 = data[at + 1] as u16;
    b0 + 0x100 * b1
}

/// Reads the unsigned 32-bit integer at `at`.
pub(crate) fn get_u32(data: &[u8], at: usize) -> (x: u32)
    requires
        at + 4 <= data@.len(),
    ensures
        x == u32_at(data@, at as int),
{
    let b0: u32 = data[at] as u32;
    let b1: u32 = data[at + 1] as u32;
    let b2: u32 = data[at + 2] as u32;
    let b3: u32 = data[at + 3] as u32;
    b0 + 0x100 * b1 + 0x1_0000 * b2 + 0x100_0000 * b3
}

/// Reads 8 bits as a signed integer.
pub(crate) fn to_i8(b: u8) -> (x: i8)
    ensures
        x == i8_of(b),
{
    if b < 0x80 {
        b as i8
    } else {
        let low: i8 = (b - 0x80) as i8;
        low + i8::MIN
    }
}

/// Reads 16 bits as a signed integer.
pub(crate) fn to_i16(x: u16) -> (y: i16)
    ensures
        y == i16_of(x),
{
    if x < 0x8000 {
        x as i16
    } else {
        let low: i16 = (x - 0x8000) as i16;
        low + i16::MIN
    }
}

/// Reads 32 bits as a signed integer.
pub(crate) fn to_i32(x: u32) -> (y: i32)
    ensures
        y == i32_of(x),
{
    if x < 0x8000_0000 {
        x as i32
    } else {
        let low: i32 = (x - 0x8000_0000) as i32;
        low + i32::MIN
    }
}

/// Appends the eight bytes that store `x`, low byte first.
pub(crate) fn put_u64(out: &mut Vec<u8>, x: u64)
    ensures
        final(out)@ == old(out)@ + u64_bytes(x),
{
    out.push((x % 0x100) as u8);
    out.push((x / 0x100 % 0x100) as u8);
    out.push((x / 0x1_0000 % 0x100) as u8);
    out.push((x / 0x100_0000 % 0x100) as u8);
    out.push((x / 0x1_0000_0000 % 0x100) as u8);
    out.push((x / 0x100_0000_0000 % 0x100) as u8);
    out.push((x / 0x1_0000_0000_0000 % 0x100) as u8);
    out.push((x / 0x100_0000_0000_0000) as u8);
}

} // verus!
